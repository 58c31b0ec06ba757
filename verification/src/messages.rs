//! The typed messages exchanged over a live connection.

use vstd::prelude::*;

use crate::codes::RoomCode;
use crate::errors::{ErrorResponse, MuuzikaError, MuuzikaResult};
use crate::lobby::{effects_v, Effect};
use crate::rooms::{fanout, RoomSyncDto, Username};
use crate::state::{has_room, room_index, State};
use crate::wire::{data_frame, json_string, u64_dec};

verus! {

/// A server-originated message; serialized as `{"type": ..., "data": ...}`.
#[derive(Debug)]
pub enum ServerMessage {
    Sync(RoomSyncDto),
    PlayerJoined(Username),
    PlayerLeft(Username),
    PlayerConnected(Username),
    PlayerDisconnected(Username),
    Noop,
    Error(ErrorResponse),
    AddResult { result: u32, username: Username },
}

/// A client command; the domain payload the session loop dispatches.
#[derive(Debug)]
pub enum ClientMessage {
    Add(Vec<u32>),
}

/// The sum of the numbers, wrapping modulo `2^32`.
pub open spec fn sum_wrap(s: Seq<u32>) -> u32
    decreases s.len(),
{
    if s.len() == 0 {
        0u32
    } else {
        (((sum_wrap(s.drop_last()) as int) + (s.last() as int)) % 0x100000000) as u32
    }
}

/// The frame broadcast to a room after an `Add` command.
pub open spec fn add_result_frame(result: u32, username: Seq<char>) -> Seq<char> {
    data_frame(
        "AddResult"@,
        "{\"result\":"@ + u64_dec(result as nat) + ",\"username\":"@ + json_string(username)
            + "}"@,
        None,
    )
}

/// The `Add` command: sum the numbers (wrapping) and broadcast the result
/// to the whole room; the sender is answered with `Noop`.
pub fn handle_add(state: &State, room_code: &RoomCode, username: &Username, numbers: &Vec<u32>)
    -> (r: (MuuzikaResult<ServerMessage>, Vec<Effect>))
    requires
        state@.wf(),
    ensures
        !has_room(state@, room_code@) ==> (r.0 matches Err(e) && e@
            == (crate::errors::ErrV::RoomNotFound { room_code: room_code@ })) && r.1@.len()
            == 0,
        has_room(state@, room_code@) ==> (r.0 matches Ok(m) && m matches ServerMessage::Noop)
            && effects_v(r.1@) == fanout(
            state@.rooms[room_index(state@, room_code@)].players,
            add_result_frame(sum_wrap(numbers@), username@),
            None,
        ),
{
    let i = match state.find_room(room_code) {
        None => {
            return (
                (Err(MuuzikaError::RoomNotFound { room_code: room_code.clone() })),
                Vec::new(),
            );
        },
        Some(i) => i,
    };
    proof {
        crate::state::lemma_room_index_unique(state@, room_code@, i as int);
    }
    let mut acc: u32 = 0;
    let mut k: usize = 0;
    proof {
        assert(numbers@.take(0) =~= Seq::<u32>::empty());
    }
    while k < numbers.len()
        invariant
            k <= numbers.len(),
            acc == sum_wrap(numbers@.take(k as int)),
        decreases numbers.len() - k,
    {
        proof {
            assert(numbers@.take(k + 1).drop_last() =~= numbers@.take(k as int));
            assert(numbers@.take(k + 1).last() == numbers@[k as int]);
        }
        acc = (((acc as u64) + (numbers[k] as u64)) % 0x100000000) as u32;
        k += 1;
    }
    proof {
        assert(numbers@.take(numbers@.len() as int) =~= numbers@);
    }
    let msg = ServerMessage::AddResult { result: acc, username: username.clone() };
    let f = crate::wire::make_frame(&msg, None);
    let effects = state.rooms[i].send_frame(&f);
    proof {
        assert(f@ == add_result_frame(sum_wrap(numbers@), username@));
    }
    (Ok(ServerMessage::Noop), effects)
}

/// Dispatch one client command and produce the reply for the sender plus
/// the fan-out effects. A failure is turned into an `Error` reply stamped
/// with `timestamp`.
pub fn handle_client_message(
    state: &State,
    room_code: &RoomCode,
    username: &Username,
    message: &ClientMessage,
    timestamp: &String,
) -> (r: (ServerMessage, Vec<Effect>))
    requires
        state@.wf(),
    ensures
        message matches ClientMessage::Add(ns) ==> {
            &&& has_room(state@, room_code@) ==> (r.0 matches ServerMessage::Noop) && effects_v(
                r.1@,
            ) == fanout(
                state@.rooms[room_index(state@, room_code@)].players,
                add_result_frame(sum_wrap(ns@), username@),
                None,
            )
            &&& !has_room(state@, room_code@) ==> (r.0 matches ServerMessage::Error(e) && e@
                == crate::errors::response_of(
                MuuzikaError::RoomNotFound { room_code: *room_code },
                timestamp@,
            )) && r.1@.len() == 0
        },
{
    match message {
        ClientMessage::Add(numbers) => {
            let (res, effects) = handle_add(state, room_code, username, numbers);
            match res {
                Ok(m) => (m, effects),
                Err(e) => {
                    let body = crate::errors::ErrorResponse::from_error(&e, timestamp.clone());
                    (ServerMessage::Error(body), effects)
                },
            }
        },
    }
}

} // verus!
