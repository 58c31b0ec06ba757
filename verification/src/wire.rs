//! The wire format of server frames.
//!
//! Every server-to-client frame is a JSON object. Objects are emitted with
//! their keys in alphabetical order, string contents are escaped as JSON
//! requires, and an acknowledgement id, when present, is inserted as an
//! `"ack"` key. The spec functions here give the exact character sequence
//! of every frame; the emitter is proved to produce it.

use vstd::prelude::*;

use crate::errors::{ErrorData, ErrorDataV, ErrorResponse, ErrorResponseV};
use crate::messages::ServerMessage;
use crate::rooms::{dto_fields, PlayerDto, RoomSyncDto};
use crate::strutil::push_char;

verus! {

use vstd::string::{StrSliceExecFns, StringExecFns};

/// Lowercase hexadecimal digit for `d` (`0 <= d < 16`).
pub open spec fn hex_char(d: int) -> char {
    if d < 10 {
        crate::codes::digit_char(d)
    } else if d == 10 {
        'a'
    } else if d == 11 {
        'b'
    } else if d == 12 {
        'c'
    } else if d == 13 {
        'd'
    } else if d == 14 {
        'e'
    } else {
        'f'
    }
}

/// The JSON escape of one character.
pub open spec fn escape_char(c: char) -> Seq<char> {
    if c == '"' {
        seq!['\\', '"']
    } else if c == '\\' {
        seq!['\\', '\\']
    } else if c as u32 == 8 {
        seq!['\\', 'b']
    } else if c as u32 == 9 {
        seq!['\\', 't']
    } else if c as u32 == 10 {
        seq!['\\', 'n']
    } else if c as u32 == 12 {
        seq!['\\', 'f']
    } else if c as u32 == 13 {
        seq!['\\', 'r']
    } else if (c as u32) < 32 {
        seq!['\\', 'u', '0', '0', hex_char(c as u32 as int / 16), hex_char(c as u32 as int % 16)]
    } else {
        seq![c]
    }
}

/// The JSON escape of a whole string.
pub open spec fn json_escape(s: Seq<char>) -> Seq<char>
    decreases s.len(),
{
    if s.len() == 0 {
        Seq::empty()
    } else {
        json_escape(s.drop_last()) + escape_char(s.last())
    }
}

/// A JSON string literal: quotes around the escaped contents.
pub open spec fn json_string(s: Seq<char>) -> Seq<char> {
    seq!['"'] + json_escape(s) + seq!['"']
}

/// `v` in decimal, without leading zeros.
pub open spec fn u64_dec(v: nat) -> Seq<char>
    decreases v,
{
    if v < 10 {
        seq![crate::codes::digit_char(v as int)]
    } else {
        u64_dec(v / 10) + seq![crate::codes::digit_char((v % 10) as int)]
    }
}

pub open spec fn bool_text(b: bool) -> Seq<char> {
    if b {
        "true"@
    } else {
        "false"@
    }
}

/// One player entry of a sync snapshot.
pub open spec fn player_dto_json(username: Seq<char>, score: u32, is_online: bool) -> Seq<char> {
    "{\"isOnline\":"@ + bool_text(is_online) + ",\"score\":"@ + u64_dec(score as nat)
        + ",\"username\":"@ + json_string(username) + "}"@
}

/// The comma-separated player entries of a sync snapshot.
pub open spec fn players_json(ps: Seq<(Seq<char>, u32, bool)>) -> Seq<char>
    decreases ps.len(),
{
    if ps.len() == 0 {
        Seq::empty()
    } else if ps.len() == 1 {
        player_dto_json(ps[0].0, ps[0].1, ps[0].2)
    } else {
        players_json(ps.drop_last()) + ","@ + player_dto_json(ps.last().0, ps.last().1, ps.last().2)
    }
}

/// The `data` payload of a `Sync` frame.
pub open spec fn sync_json(
    you: Seq<char>,
    code: Seq<char>,
    leader: Seq<char>,
    ps: Seq<(Seq<char>, u32, bool)>,
) -> Seq<char> {
    "{\"room\":{\"code\":"@ + json_string(code) + ",\"leader\":"@ + json_string(leader)
        + ",\"players\":["@ + players_json(ps) + "]},\"you\":"@ + json_string(you) + "}"@
}

/// The kind-specific `data` object of an error body, with keys in
/// alphabetical order.
pub open spec fn error_data_json(d: ErrorDataV) -> Seq<char> {
    match (d.expected_prefix, d.room_code, d.username) {
        (Some(p), None, None) => "{\"expectedPrefix\":"@ + json_string(p) + "}"@,
        (None, Some(c), Some(u)) => "{\"roomCode\":"@ + json_string(c) + ",\"username\":"@
            + json_string(u) + "}"@,
        (None, Some(c), None) => "{\"roomCode\":"@ + json_string(c) + "}"@,
        (None, None, Some(u)) => "{\"username\":"@ + json_string(u) + "}"@,
        _ => "{}"@,
    }
}

/// The JSON body of an error response.
pub open spec fn error_json(e: ErrorResponseV) -> Seq<char> {
    "{\"code\":"@ + u64_dec(e.code as nat) + ",\"data\":"@ + (match e.data {
        Some(d) => error_data_json(d),
        None => "null"@,
    }) + ",\"error\":"@ + json_string(e.error) + ",\"message\":"@ + json_string(e.message)
        + ",\"timestamp\":"@ + json_string(e.timestamp) + "}"@
}

/// A frame with a `data` payload, with keys in alphabetical order.
pub open spec fn data_frame(tag: Seq<char>, data: Seq<char>, ack: Option<Seq<char>>) -> Seq<
    char,
> {
    match ack {
        None => "{\"data\":"@ + data + ",\"type\":"@ + json_string(tag) + "}"@,
        Some(a) => "{\"ack\":"@ + json_string(a) + ",\"data\":"@ + data + ",\"type\":"@
            + json_string(tag) + "}"@,
    }
}

/// A frame without a payload.
pub open spec fn unit_frame(tag: Seq<char>, ack: Option<Seq<char>>) -> Seq<char> {
    match ack {
        None => "{\"type\":"@ + json_string(tag) + "}"@,
        Some(a) => "{\"ack\":"@ + json_string(a) + ",\"type\":"@ + json_string(tag) + "}"@,
    }
}

/// The frame for a per-player event such as `PlayerJoined`.
pub open spec fn event_frame(tag: Seq<char>, username: Seq<char>) -> Seq<char> {
    data_frame(tag, json_string(username), None)
}

/// The frame carrying an error body.
pub open spec fn error_frame(e: ErrorResponseV) -> Seq<char> {
    data_frame("Error"@, error_json(e), None)
}

/// The wire tag of a server message.
pub open spec fn message_tag(m: ServerMessage) -> Seq<char> {
    match m {
        ServerMessage::Sync(..) => "Sync"@,
        ServerMessage::PlayerJoined(..) => "PlayerJoined"@,
        ServerMessage::PlayerLeft(..) => "PlayerLeft"@,
        ServerMessage::PlayerConnected(..) => "PlayerConnected"@,
        ServerMessage::PlayerDisconnected(..) => "PlayerDisconnected"@,
        ServerMessage::Noop => "Noop"@,
        ServerMessage::Error(..) => "Error"@,
        ServerMessage::AddResult { .. } => "AddResult"@,
    }
}

/// The serialized `data` payload of a server message, if it has one.
pub open spec fn message_data_json(m: ServerMessage) -> Option<Seq<char>> {
    match m {
        ServerMessage::Sync(d) => Some(
            sync_json(
                d.you@,
                d.room.code@,
                d.room.leader@,
                d.room.players@.map_values(|p: PlayerDto| dto_fields(p)),
            ),
        ),
        ServerMessage::PlayerJoined(u) => Some(json_string(u@)),
        ServerMessage::PlayerLeft(u) => Some(json_string(u@)),
        ServerMessage::PlayerConnected(u) => Some(json_string(u@)),
        ServerMessage::PlayerDisconnected(u) => Some(json_string(u@)),
        ServerMessage::Noop => None,
        ServerMessage::Error(e) => Some(error_json(e@)),
        ServerMessage::AddResult { result, username } => Some(
            "{\"result\":"@ + u64_dec(result as nat) + ",\"username\":"@ + json_string(username@)
                + "}"@,
        ),
    }
}

/// The exact frame text of a server message, with an optional ack echoed
/// into the object.
pub open spec fn frame_of(m: ServerMessage, ack: Option<Seq<char>>) -> Seq<char> {
    match message_data_json(m) {
        Some(d) => data_frame(message_tag(m), d, ack),
        None => unit_frame(message_tag(m), ack),
    }
}

/// Append the JSON escape of one character.
fn push_escaped_char(out: &mut String, c: char)
    ensures
        final(out)@ == old(out)@ + escape_char(c),
{
    proof {
        reveal_strlit("\\u00");
    }
    let u = c as u32;
    if c == '"' {
        push_char(out, '\\');
        push_char(out, '"');
        proof {
            assert(out@ =~= old(out)@ + escape_char(c));
        }
    } else if c == '\\' {
        push_char(out, '\\');
        push_char(out, '\\');
        proof {
            assert(out@ =~= old(out)@ + escape_char(c));
        }
    } else if u == 8 {
        push_char(out, '\\');
        push_char(out, 'b');
        proof {
            assert(out@ =~= old(out)@ + escape_char(c));
        }
    } else if u == 9 {
        push_char(out, '\\');
        push_char(out, 't');
        proof {
            assert(out@ =~= old(out)@ + escape_char(c));
        }
    } else if u == 10 {
        push_char(out, '\\');
        push_char(out, 'n');
        proof {
            assert(out@ =~= old(out)@ + escape_char(c));
        }
    } else if u == 12 {
        push_char(out, '\\');
        push_char(out, 'f');
        proof {
            assert(out@ =~= old(out)@ + escape_char(c));
        }
    } else if u == 13 {
        push_char(out, '\\');
        push_char(out, 'r');
        proof {
            assert(out@ =~= old(out)@ + escape_char(c));
        }
    } else if u < 32 {
        push_char(out, '\\');
        push_char(out, 'u');
        push_char(out, '0');
        push_char(out, '0');
        push_char(out, hex_digit_exec(u / 16));
        push_char(out, hex_digit_exec(u % 16));
        proof {
            assert(out@ =~= old(out)@ + escape_char(c));
        }
    } else {
        push_char(out, c);
        proof {
            assert(out@ =~= old(out)@ + escape_char(c));
        }
    }
}

/// Exact exec mirror of `hex_char`.
fn hex_digit_exec(d: u32) -> (r: char)
    requires
        d < 16,
    ensures
        r == hex_char(d as int),
{
    if d < 10 {
        crate::codes::digit_to_char(d)
    } else if d == 10 {
        'a'
    } else if d == 11 {
        'b'
    } else if d == 12 {
        'c'
    } else if d == 13 {
        'd'
    } else if d == 14 {
        'e'
    } else {
        'f'
    }
}

/// Append a quoted, escaped JSON string.
fn push_json_string(out: &mut String, s: &str)
    ensures
        final(out)@ == old(out)@ + json_string(s@),
{
    push_char(out, '"');
    let n = s.unicode_len();
    let mut i: usize = 0;
    proof {
        assert(json_escape(s@.take(0)) =~= Seq::<char>::empty());
    }
    while i < n
        invariant
            i <= n,
            n == s@.len(),
            out@ == old(out)@ + seq!['"'] + json_escape(s@.take(i as int)),
        decreases n - i,
    {
        let c = s.get_char(i);
        push_escaped_char(out, c);
        i += 1;
        proof {
            assert(s@.take(i as int).drop_last() =~= s@.take(i - 1));
            assert(s@.take(i as int).last() == s@[i - 1]);
        }
    }
    push_char(out, '"');
    proof {
        assert(s@.take(n as int) =~= s@);
        assert(out@ =~= old(out)@ + json_string(s@));
    }
}

/// Append `v` in decimal.
fn push_u64(out: &mut String, v: u64)
    ensures
        final(out)@ == old(out)@ + u64_dec(v as nat),
    decreases v,
{
    if v < 10 {
        push_char(out, crate::codes::digit_to_char(v as u32));
    } else {
        push_u64(out, v / 10);
        push_char(out, crate::codes::digit_to_char((v % 10) as u32));
    }
}

/// Append `true` or `false`.
fn push_bool(out: &mut String, b: bool)
    ensures
        final(out)@ == old(out)@ + bool_text(b),
{
    if b {
        out.append("true");
    } else {
        out.append("false");
    }
}

/// Append one player entry.
fn push_player_dto(out: &mut String, d: &PlayerDto)
    ensures
        final(out)@ == old(out)@ + player_dto_json(d.username@, d.score, d.is_online),
{
    out.append("{\"isOnline\":");
    push_bool(out, d.is_online);
    out.append(",\"score\":");
    push_u64(out, d.score as u64);
    out.append(",\"username\":");
    push_json_string(out, d.username.text.as_str());
    out.append("}");
}

/// Append the comma-separated player entries.
fn push_players(out: &mut String, ps: &Vec<PlayerDto>)
    ensures
        final(out)@ == old(out)@ + players_json(ps@.map_values(|p: PlayerDto| dto_fields(p))),
{
    let ghost all = ps@.map_values(|p: PlayerDto| dto_fields(p));
    let mut i: usize = 0;
    proof {
        assert(players_json(all.take(0)) =~= Seq::<char>::empty());
    }
    while i < ps.len()
        invariant
            i <= ps.len(),
            all == ps@.map_values(|p: PlayerDto| dto_fields(p)),
            all.len() == ps@.len(),
            out@ == old(out)@ + players_json(all.take(i as int)),
        decreases ps.len() - i,
    {
        if i > 0 {
            out.append(",");
        }
        push_player_dto(out, &ps[i]);
        i += 1;
        proof {
            assert(all.take(i as int).drop_last() =~= all.take(i - 1));
            assert(all.take(i as int).last() == all[i - 1]);
            assert(all[i - 1] == dto_fields(ps@[i - 1]));
            if i == 1 {
                assert(players_json(all.take(1)) == player_dto_json(
                    all[0].0,
                    all[0].1,
                    all[0].2,
                ));
            }
            assert(out@ =~= old(out)@ + players_json(all.take(i as int)));
        }
    }
    proof {
        assert(all.take(ps@.len() as int) =~= all);
    }
}

/// Append the kind-specific error data object, or `null`.
fn push_error_data(out: &mut String, d: &Option<ErrorData>)
    ensures
        final(out)@ == old(out)@ + (match d {
            Some(dd) => error_data_json(dd@),
            None => "null"@,
        }),
{
    match d {
        None => {
            out.append("null");
        },
        Some(dd) => {
            match (&dd.expected_prefix, &dd.room_code, &dd.username) {
                (Some(p), None, None) => {
                    out.append("{\"expectedPrefix\":");
                    push_json_string(out, p.as_str());
                    out.append("}");
                },
                (None, Some(c), Some(u)) => {
                    out.append("{\"roomCode\":");
                    push_json_string(out, c.text.as_str());
                    out.append(",\"username\":");
                    push_json_string(out, u.text.as_str());
                    out.append("}");
                },
                (None, Some(c), None) => {
                    out.append("{\"roomCode\":");
                    push_json_string(out, c.text.as_str());
                    out.append("}");
                },
                (None, None, Some(u)) => {
                    out.append("{\"username\":");
                    push_json_string(out, u.text.as_str());
                    out.append("}");
                },
                _ => {
                    out.append("{}");
                },
            }
        },
    }
}

/// Append a full error body.
fn push_error_json(out: &mut String, e: &ErrorResponse)
    ensures
        final(out)@ == old(out)@ + error_json(e@),
{
    out.append("{\"code\":");
    push_u64(out, e.code as u64);
    out.append(",\"data\":");
    push_error_data(out, &e.data);
    out.append(",\"error\":");
    push_json_string(out, e.error.as_str());
    out.append(",\"message\":");
    push_json_string(out, e.message.as_str());
    out.append(",\"timestamp\":");
    push_json_string(out, e.timestamp.as_str());
    out.append("}");
}

/// Append the `data` payload of a `Sync` frame.
fn push_sync_json(out: &mut String, s: &RoomSyncDto)
    ensures
        final(out)@ == old(out)@ + sync_json(
            s.you@,
            s.room.code@,
            s.room.leader@,
            s.room.players@.map_values(|p: PlayerDto| dto_fields(p)),
        ),
{
    out.append("{\"room\":{\"code\":");
    push_json_string(out, s.room.code.text.as_str());
    out.append(",\"leader\":");
    push_json_string(out, s.room.leader.text.as_str());
    out.append(",\"players\":[");
    push_players(out, &s.room.players);
    out.append("]},\"you\":");
    push_json_string(out, s.you.text.as_str());
    out.append("}");
}

/// Serialize a server message to its frame text, echoing `ack` into the
/// object when given.
pub fn make_frame(m: &ServerMessage, ack: Option<&String>) -> (r: String)
    ensures
        r@ == frame_of(*m, match ack {
            Some(a) => Some(a@),
            None => None,
        }),
{
    let mut out = String::new();
    let is_noop = matches!(m, ServerMessage::Noop);
    match ack {
        Some(a) => {
            out.append("{\"ack\":");
            push_json_string(&mut out, a.as_str());
            if is_noop {
                out.append(",\"type\":");
            } else {
                out.append(",\"data\":");
            }
        },
        None => {
            if is_noop {
                out.append("{\"type\":");
            } else {
                out.append("{\"data\":");
            }
        },
    }
    if !is_noop {
        push_data(&mut out, m);
        out.append(",\"type\":");
    }
    push_tag(&mut out, m);
    out.append("}");
    proof {
        assert(out@ =~= frame_of(*m, match ack {
            Some(a) => Some(a@),
            None => None,
        }));
    }
    out
}

/// Append the serialized `data` payload of a message that has one.
fn push_data(out: &mut String, m: &ServerMessage)
    requires
        !(*m matches ServerMessage::Noop),
    ensures
        message_data_json(*m) matches Some(d) && final(out)@ == old(out)@ + d,
{
    match m {
        ServerMessage::Sync(d) => {
            push_sync_json(out, d);
        },
        ServerMessage::PlayerJoined(u) => {
            push_json_string(out, u.text.as_str());
        },
        ServerMessage::PlayerLeft(u) => {
            push_json_string(out, u.text.as_str());
        },
        ServerMessage::PlayerConnected(u) => {
            push_json_string(out, u.text.as_str());
        },
        ServerMessage::PlayerDisconnected(u) => {
            push_json_string(out, u.text.as_str());
        },
        ServerMessage::Error(e) => {
            push_error_json(out, e);
        },
        ServerMessage::AddResult { result, username } => {
            out.append("{\"result\":");
            push_u64(out, *result as u64);
            out.append(",\"username\":");
            push_json_string(out, username.text.as_str());
            out.append("}");
        },
        ServerMessage::Noop => {
        },
    }
}

/// Append the quoted tag of a message.
fn push_tag(out: &mut String, m: &ServerMessage)
    ensures
        final(out)@ == old(out)@ + json_string(message_tag(*m)),
{
    let tag = match m {
        ServerMessage::Sync(..) => "Sync",
        ServerMessage::PlayerJoined(..) => "PlayerJoined",
        ServerMessage::PlayerLeft(..) => "PlayerLeft",
        ServerMessage::PlayerConnected(..) => "PlayerConnected",
        ServerMessage::PlayerDisconnected(..) => "PlayerDisconnected",
        ServerMessage::Noop => "Noop",
        ServerMessage::Error(..) => "Error",
        ServerMessage::AddResult { .. } => "AddResult",
    };
    push_json_string(out, tag);
}

} // verus!
