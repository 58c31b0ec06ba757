use muuzika::errors::MuuzikaError;
use muuzika::lobby::{CreateOrJoinRoomRequest, Effect};
use muuzika::rooms::Username;
use muuzika::state::State;

fn req(name: &str) -> CreateOrJoinRoomRequest {
    CreateOrJoinRoomRequest { username: Username::new(name.to_string()) }
}

fn check_invariants(state: &State) {
    let universe = 10usize.pow(state.width as u32);
    assert_eq!(state.available_codes.len() + state.rooms.len(), universe);
    for room in &state.rooms {
        if room.canceller.is_some() {
            assert!(room.players.is_empty());
        }
        for p in &room.players {
            assert!(!(p.conn.is_some() && p.canceller.is_some()));
        }
    }
}

fn armed_player_timer(effects: &[Effect]) -> u64 {
    for e in effects {
        if let Effect::ArmPlayerTimer { timer, .. } = e {
            return *timer;
        }
    }
    panic!("no player timer was armed");
}

fn armed_room_timer(effects: &[Effect]) -> u64 {
    for e in effects {
        if let Effect::ArmRoomTimer { timer, .. } = e {
            return *timer;
        }
    }
    panic!("no room timer was armed");
}

#[test]
fn create_then_join() {
    let mut state = State::new("s".to_string(), 1);
    let (r, effects) = state.create_room(&req("alice"), 100);
    let resp = r.unwrap();
    assert_eq!(resp.room_code.text.len(), 1);
    assert_eq!(effects.len(), 1);
    check_invariants(&state);

    let (r2, _effects2) = state.join_room(&resp.room_code, &req("bob"), 200);
    let resp2 = r2.unwrap();
    assert_eq!(resp2.room_code.text, resp.room_code.text);
    assert_eq!(state.rooms.len(), 1);
    let room = &state.rooms[0];
    assert_eq!(room.leader.text, "alice");
    let mut names: Vec<String> =
        room.players.iter().map(|p| p.username.text.clone()).collect();
    names.sort();
    assert_eq!(names, vec!["alice".to_string(), "bob".to_string()]);
    check_invariants(&state);
}

#[test]
fn joining_an_unknown_room_fails() {
    let mut state = State::new("s".to_string(), 4);
    let bogus = muuzika::codes::RoomCode::new("abcd".to_string());
    let (r, effects) = state.join_room(&bogus, &req("alice"), 100);
    match r {
        Err(MuuzikaError::RoomNotFound { room_code }) => {
            assert_eq!(room_code.text, "abcd");
        }
        other => panic!("expected RoomNotFound, got {:?}", other),
    }
    assert!(effects.is_empty());
    check_invariants(&state);
}

#[test]
fn duplicate_username_is_rejected() {
    let mut state = State::new("s".to_string(), 1);
    let (r, _) = state.create_room(&req("alice"), 100);
    let resp = r.unwrap();
    let (_, _) = state.join_room(&resp.room_code, &req("bob"), 200);
    let (r3, effects3) = state.join_room(&resp.room_code, &req("bob"), 300);
    match r3 {
        Err(MuuzikaError::UsernameTaken { room_code, username }) => {
            assert_eq!(room_code.text, resp.room_code.text);
            assert_eq!(username.text, "bob");
        }
        other => panic!("expected UsernameTaken, got {:?}", other),
    }
    assert!(effects3.is_empty());
    check_invariants(&state);
}

#[test]
fn exhausting_the_code_pool() {
    let mut state = State::new("s".to_string(), 1);
    for k in 0..10 {
        let (r, _) = state.create_room(&req(&format!("user{}", k)), 100 + k as u64);
        assert!(r.is_ok(), "create {} should succeed", k);
    }
    assert!(state.available_codes.is_empty());
    let (r, effects) = state.create_room(&req("overflow"), 999);
    assert!(matches!(r, Err(MuuzikaError::OutOfRoomCodes)));
    assert!(effects.is_empty());
    check_invariants(&state);
}

#[test]
fn reconnect_wins_over_old_connection() {
    let mut state = State::new("s".to_string(), 2);
    let (r, _) = state.create_room(&req("alice"), 100);
    let resp = r.unwrap();
    let ts = "2024-01-01T00:00:00+00:00".to_string();

    let (c1, eff1) = state.connect_player(&resp.token, &"T1".to_string(), &ts);
    assert!(c1.is_ok());
    assert!(!eff1
        .iter()
        .any(|e| matches!(e, Effect::SendAndClose { .. })));

    let (c2, eff2) = state.connect_player(&resp.token, &"T2".to_string(), &ts);
    let sync = c2.unwrap();
    assert_eq!(sync.you.text, "alice");
    // The first connection is told it was superseded and closed.
    let mut closed_t1 = false;
    for e in &eff2 {
        if let Effect::SendAndClose { conn, frame } = e {
            assert_eq!(conn, "T1");
            assert!(frame.contains("ConnectedInAnotherDevice"));
            closed_t1 = true;
        }
    }
    assert!(closed_t1);
    // Frames subsequently sent by the room go to the new connection.
    let frame = "{\"type\":\"Noop\"}".to_string();
    let sends = state.rooms[0].send_frame(&frame);
    assert_eq!(sends.len(), 1);
    match &sends[0] {
        Effect::Send { conn, .. } => assert_eq!(conn, "T2"),
        other => panic!("expected a send, got {:?}", other),
    }
    check_invariants(&state);
}

#[test]
fn grace_reclaim_and_room_destruction() {
    let mut state = State::new("s".to_string(), 1);
    let (r, eff) = state.create_room(&req("alice"), 100);
    let resp = r.unwrap();
    let t0 = armed_player_timer(&eff);
    let ts = "2024-01-01T00:00:00+00:00".to_string();

    // Before the grace period ends (timer not fired) a connect succeeds.
    let (c, _) = state.connect_player(&resp.token, &"T1".to_string(), &ts);
    assert!(c.is_ok());
    // The player timer was cancelled by the connect; firing it is a no-op.
    let eff_noop = state.player_cleanup_timeout(
        &resp.room_code,
        &Username::new("alice".to_string()),
        t0,
    );
    assert!(eff_noop.is_empty());
    assert_eq!(state.rooms[0].players.len(), 1);

    // Now disconnect and let the timer fire: the seat is reaped and the
    // empty room's destruction timer is armed.
    let (d, eff_d) = state.disconnect_player(
        &resp.room_code,
        &Username::new("alice".to_string()),
        &"T1".to_string(),
    );
    assert!(d.is_ok());
    let t1 = armed_player_timer(&eff_d);
    let eff_fire = state.player_cleanup_timeout(
        &resp.room_code,
        &Username::new("alice".to_string()),
        t1,
    );
    let t2 = armed_room_timer(&eff_fire);
    assert!(state.rooms[0].players.is_empty());

    // A connect after the seat was reaped fails.
    let (late, _) = state.connect_player(&resp.token, &"T9".to_string(), &ts);
    assert!(matches!(late, Err(MuuzikaError::PlayerNotInRoom { .. })));

    // The room timer fires: the room is destroyed and its code returns to
    // the pool.
    state.room_cleanup_timeout(&resp.room_code, t2);
    assert!(state.rooms.is_empty());
    assert_eq!(state.available_codes.len(), 10);
    check_invariants(&state);
}

#[test]
fn disconnect_then_reconnect_within_grace() {
    let mut state = State::new("s".to_string(), 2);
    let (r, _) = state.create_room(&req("alice"), 100);
    let resp = r.unwrap();
    let (rb, _) = state.join_room(&resp.room_code, &req("bob"), 150);
    let resp_bob = rb.unwrap();
    let ts = "2024-01-01T00:00:00+00:00".to_string();

    // Bob observes; alice connects, disconnects, reconnects.
    let (cb, _) = state.connect_player(&resp_bob.token, &"B1".to_string(), &ts);
    assert!(cb.is_ok());
    let (c1, _) = state.connect_player(&resp.token, &"A1".to_string(), &ts);
    assert!(c1.is_ok());

    let (d, eff_d) = state.disconnect_player(
        &resp.room_code,
        &Username::new("alice".to_string()),
        &"A1".to_string(),
    );
    assert!(d.is_ok());
    let t = armed_player_timer(&eff_d);
    let disconnected_frames: Vec<&Effect> = eff_d
        .iter()
        .filter(|e| matches!(e, Effect::Send { frame, .. } if frame.contains("PlayerDisconnected")))
        .collect();
    assert_eq!(disconnected_frames.len(), 1);

    let (c2, eff_c2) = state.connect_player(&resp.token, &"A2".to_string(), &ts);
    assert!(c2.is_ok());
    // The pending seat timer is cancelled, exactly one PlayerConnected is
    // seen, and no PlayerLeft is ever emitted.
    assert!(eff_c2
        .iter()
        .any(|e| matches!(e, Effect::CancelTimer { timer } if *timer == t)));
    let connected_frames: Vec<&Effect> = eff_c2
        .iter()
        .filter(|e| matches!(e, Effect::Send { frame, .. } if frame.contains("PlayerConnected")))
        .collect();
    assert_eq!(connected_frames.len(), 1);
    assert!(!eff_c2
        .iter()
        .any(|e| matches!(e, Effect::Send { frame, .. } if frame.contains("PlayerLeft"))));

    // The stale timer fires after the reconnect: nothing happens.
    let eff_stale = state.player_cleanup_timeout(
        &resp.room_code,
        &Username::new("alice".to_string()),
        t,
    );
    assert!(eff_stale.is_empty());
    assert_eq!(state.rooms[0].players.len(), 2);
    check_invariants(&state);
}

#[test]
fn stale_seat_version_is_rejected() {
    let mut state = State::new("s".to_string(), 1);
    let (r, eff) = state.create_room(&req("alice"), 100);
    let resp = r.unwrap();
    let t0 = armed_player_timer(&eff);
    let ts = "2024-01-01T00:00:00+00:00".to_string();

    // The seat is reaped, then re-created under the same name with a new
    // seat version.
    let eff_fire = state.player_cleanup_timeout(
        &resp.room_code,
        &Username::new("alice".to_string()),
        t0,
    );
    let _t_room = armed_room_timer(&eff_fire);
    let (rejoin, _) = state.join_room(&resp.room_code, &req("alice"), 200);
    let resp2 = rejoin.unwrap();

    // The old token carries the old seat version and is turned away.
    let (old, _) = state.connect_player(&resp.token, &"T1".to_string(), &ts);
    match old {
        Err(MuuzikaError::UsernameTaken { username, .. }) => {
            assert_eq!(username.text, "alice");
        }
        other => panic!("expected UsernameTaken, got {:?}", other),
    }
    // The fresh token works.
    let (new, _) = state.connect_player(&resp2.token, &"T2".to_string(), &ts);
    assert!(new.is_ok());
    check_invariants(&state);
}

#[test]
fn joining_cancels_room_destruction() {
    let mut state = State::new("s".to_string(), 1);
    let (r, eff) = state.create_room(&req("alice"), 100);
    let resp = r.unwrap();
    let t0 = armed_player_timer(&eff);
    let eff_fire = state.player_cleanup_timeout(
        &resp.room_code,
        &Username::new("alice".to_string()),
        t0,
    );
    let t_room = armed_room_timer(&eff_fire);

    // Someone joins while the room-destruction timer is pending: the
    // canceller is signalled and the stale timer does nothing.
    let (j, eff_j) = state.join_room(&resp.room_code, &req("carol"), 300);
    assert!(j.is_ok());
    assert!(eff_j
        .iter()
        .any(|e| matches!(e, Effect::CancelTimer { timer } if *timer == t_room)));
    state.room_cleanup_timeout(&resp.room_code, t_room);
    assert_eq!(state.rooms.len(), 1);
    check_invariants(&state);
}
