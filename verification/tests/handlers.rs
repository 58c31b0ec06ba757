use muuzika::lobby::{CreateOrJoinRoomRequest, Effect};
use muuzika::messages::{handle_client_message, ClientMessage};
use muuzika::rooms::Username;
use muuzika::state::State;

#[test]
fn add_command_broadcasts_the_sum() {
    let mut state = State::new("s".to_string(), 2);
    let (r, _) = state.create_room(
        &CreateOrJoinRoomRequest { username: Username::new("alice".to_string()) },
        100,
    );
    let resp = r.unwrap();
    let ts = "2024-01-01T00:00:00+00:00".to_string();
    let (c, _) = state.connect_player(&resp.token, &"T1".to_string(), &ts);
    assert!(c.is_ok());

    let alice = Username::new("alice".to_string());
    let (reply, effects) = handle_client_message(
        &state,
        &resp.room_code,
        &alice,
        &ClientMessage::Add(vec![1, 2, 3]),
        &ts,
    );
    assert!(matches!(reply, muuzika::messages::ServerMessage::Noop));
    assert_eq!(effects.len(), 1);
    match &effects[0] {
        Effect::Send { conn, frame } => {
            assert_eq!(conn, "T1");
            assert_eq!(
                frame,
                "{\"data\":{\"result\":6,\"username\":\"alice\"},\"type\":\"AddResult\"}"
            );
        }
        other => panic!("expected a send, got {:?}", other),
    }
}

#[test]
fn add_command_wraps_on_overflow() {
    let mut state = State::new("s".to_string(), 2);
    let (r, _) = state.create_room(
        &CreateOrJoinRoomRequest { username: Username::new("alice".to_string()) },
        100,
    );
    let resp = r.unwrap();
    let ts = "2024-01-01T00:00:00+00:00".to_string();
    let (c, _) = state.connect_player(&resp.token, &"T1".to_string(), &ts);
    assert!(c.is_ok());

    let alice = Username::new("alice".to_string());
    let (_, effects) = handle_client_message(
        &state,
        &resp.room_code,
        &alice,
        &ClientMessage::Add(vec![u32::MAX, 3]),
        &ts,
    );
    match &effects[0] {
        Effect::Send { frame, .. } => {
            assert_eq!(
                frame,
                "{\"data\":{\"result\":2,\"username\":\"alice\"},\"type\":\"AddResult\"}"
            );
        }
        other => panic!("expected a send, got {:?}", other),
    }
}

#[test]
fn add_in_unknown_room_yields_an_error_reply() {
    let state = State::new("s".to_string(), 2);
    let ts = "2024-01-01T00:00:00+00:00".to_string();
    let (reply, effects) = handle_client_message(
        &state,
        &muuzika::codes::RoomCode::new("00".to_string()),
        &Username::new("ghost".to_string()),
        &ClientMessage::Add(vec![1]),
        &ts,
    );
    match reply {
        muuzika::messages::ServerMessage::Error(e) => {
            assert_eq!(e.code, 404);
            assert_eq!(e.error, "RoomNotFound");
        }
        other => panic!("expected an error reply, got {:?}", other),
    }
    assert!(effects.is_empty());
}

#[test]
fn pool_starts_as_a_permutation_of_all_codes() {
    let state = State::new("s".to_string(), 1);
    let mut codes = state.available_codes.clone();
    codes.sort();
    assert_eq!(codes, (0..10).collect::<Vec<u32>>());
}

#[test]
fn sync_snapshot_lists_all_players_with_presence() {
    let mut state = State::new("s".to_string(), 2);
    let (r, _) = state.create_room(
        &CreateOrJoinRoomRequest { username: Username::new("alice".to_string()) },
        100,
    );
    let resp = r.unwrap();
    let (rb, _) = state.join_room(
        &resp.room_code,
        &CreateOrJoinRoomRequest { username: Username::new("bob".to_string()) },
        150,
    );
    let resp_bob = rb.unwrap();
    let ts = "2024-01-01T00:00:00+00:00".to_string();
    let (cb, _) = state.connect_player(&resp_bob.token, &"B1".to_string(), &ts);
    let sync = cb.unwrap();
    assert_eq!(sync.you.text, "bob");
    assert_eq!(sync.room.code.text, resp.room_code.text);
    assert_eq!(sync.room.leader.text, "alice");
    let mut seen: Vec<(String, u32, bool)> = sync
        .room
        .players
        .iter()
        .map(|p| (p.username.text.clone(), p.score, p.is_online))
        .collect();
    seen.sort();
    assert_eq!(
        seen,
        vec![("alice".to_string(), 0, false), ("bob".to_string(), 0, true)]
    );
}
