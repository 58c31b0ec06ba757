//! Server core of a room-based multiplayer session service.
//!
//! The library is the authoritative lifecycle engine: room creation and
//! admission, token issuance and verification, connection ownership,
//! per-room fan-out and delayed cleanup. All shared state lives in
//! [`state::State`]; every operation mutates it and returns the list of
//! [`lobby::Effect`]s (frames to send, timers to arm or cancel) that the
//! surrounding transport layer must perform.

pub mod auth;
pub mod codes;
pub mod errors;
pub mod lobby;
pub mod messages;
pub mod rooms;
pub mod state;
pub mod strutil;
pub mod wire;
