//! Lobby orchestration: create, join, connect, disconnect, and the delayed
//! cleanup steps, each returning the transport effects to perform.

use vstd::prelude::*;

use crate::auth::{claims_of, token_of};
use crate::codes::{dec_pad, digits_val, pow10, RoomCode};
use crate::errors::{ErrV, MuuzikaError, MuuzikaResult};
use crate::rooms::{
    fanout, fanout_one, Player, PlayerDto, PlayerV, Room, RoomSyncDto, RoomV, Username,
};
use crate::state::{
    has_room, player_index, pool_has, room_has_player, room_index, room_wf, rooms_have, State,
    StateV,
};
use crate::wire::{error_frame, event_frame};

verus! {

/// One action the transport layer must perform after a lobby operation.
///
/// Frames are already serialized; timers are identified by the id minted
/// when they were armed, and a timer whose id is stale when it fires is
/// ignored by the timeout operations.
#[derive(Debug)]
pub enum Effect {
    /// Push one text frame to the connection with this id.
    Send { conn: String, frame: String },
    /// Push one text frame, then a close signal.
    SendAndClose { conn: String, frame: String },
    /// Start a player-cleanup timer for this seat.
    ArmPlayerTimer { code: RoomCode, username: Username, timer: u64 },
    /// Start a room-cleanup timer for this room.
    ArmRoomTimer { code: RoomCode, timer: u64 },
    /// Signal the one-shot canceller of this timer.
    CancelTimer { timer: u64 },
}

/// Mathematical model of an `Effect`.
#[verifier::ext_equal]
pub enum EffectV {
    Send { conn: Seq<char>, frame: Seq<char> },
    SendAndClose { conn: Seq<char>, frame: Seq<char> },
    ArmPlayerTimer { code: Seq<char>, username: Seq<char>, timer: u64 },
    ArmRoomTimer { code: Seq<char>, timer: u64 },
    CancelTimer { timer: u64 },
}

impl View for Effect {
    type V = EffectV;

    open spec fn view(&self) -> EffectV {
        match self {
            Effect::Send { conn, frame } => EffectV::Send { conn: conn@, frame: frame@ },
            Effect::SendAndClose { conn, frame } => EffectV::SendAndClose {
                conn: conn@,
                frame: frame@,
            },
            Effect::ArmPlayerTimer { code, username, timer } => EffectV::ArmPlayerTimer {
                code: code@,
                username: username@,
                timer: *timer,
            },
            Effect::ArmRoomTimer { code, timer } => EffectV::ArmRoomTimer {
                code: code@,
                timer: *timer,
            },
            Effect::CancelTimer { timer } => EffectV::CancelTimer { timer: *timer },
        }
    }
}

/// The sequence of effect models behind a vector of effects.
pub open spec fn effects_v(v: Seq<Effect>) -> Seq<EffectV> {
    v.map_values(|e: Effect| e@)
}

/// Body of a create or join request.
#[derive(Debug)]
pub struct CreateOrJoinRoomRequest {
    pub username: Username,
}

/// Query string of a connection upgrade: the bearer token naming the seat
/// to take over.
#[derive(Debug)]
pub struct WsQuery {
    pub token: String,
}

/// Successful create or join reply: the room's code and the bearer token
/// for the new seat.
#[derive(Debug)]
pub struct RoomJoinedResponse {
    pub room_code: RoomCode,
    pub token: String,
}

/// The model of a seat freshly created at `now` with its cleanup timer
/// armed.
pub open spec fn fresh_player(username: Seq<char>, now: u64, timer: u64) -> PlayerV {
    PlayerV { username, score: 0, created_at: now, conn: None, canceller: Some(timer) }
}

/// The model of a room freshly created for its leader.
pub open spec fn fresh_room(code: Seq<char>, username: Seq<char>, now: u64, timer: u64) -> RoomV {
    RoomV {
        code,
        leader: username,
        players: seq![fresh_player(username, now, timer)],
        canceller: None,
    }
}

/// The model of a room after `username` joined at `now`: the new seat is
/// appended with its cleanup timer armed, and any pending room canceller
/// is cleared.
pub open spec fn joined_room(r: RoomV, username: Seq<char>, now: u64, timer: u64) -> RoomV {
    RoomV {
        code: r.code,
        leader: r.leader,
        players: r.players.push(fresh_player(username, now, timer)),
        canceller: None,
    }
}

/// The effect of signalling a pending timer, if one is armed.
pub open spec fn cancel_effects(c: Option<u64>) -> Seq<EffectV> {
    match c {
        Some(t) => seq![EffectV::CancelTimer { timer: t }],
        None => Seq::empty(),
    }
}

/// The model of a seat after a connection took it over.
pub open spec fn connected_player(p: PlayerV, conn: Seq<char>) -> PlayerV {
    PlayerV {
        username: p.username,
        score: p.score,
        created_at: p.created_at,
        conn: Some(conn),
        canceller: None,
    }
}

/// The model of a room after the seat at `j` was taken over by `conn`.
pub open spec fn connected_room(r: RoomV, j: int, conn: Seq<char>) -> RoomV {
    RoomV {
        code: r.code,
        leader: r.leader,
        players: r.players.update(j, connected_player(r.players[j], conn)),
        canceller: r.canceller,
    }
}

/// The model of a seat that went offline with its cleanup timer armed.
pub open spec fn offline_player(p: PlayerV, timer: u64) -> PlayerV {
    PlayerV {
        username: p.username,
        score: p.score,
        created_at: p.created_at,
        conn: None,
        canceller: Some(timer),
    }
}

/// The model of a room after the seat at `j` went offline.
pub open spec fn disconnected_room(r: RoomV, j: int, timer: u64) -> RoomV {
    RoomV {
        code: r.code,
        leader: r.leader,
        players: r.players.update(j, offline_player(r.players[j], timer)),
        canceller: r.canceller,
    }
}

/// The model of a room after the seat at `j` was reaped.
pub open spec fn reaped_room(r: RoomV, j: int, canceller: Option<u64>) -> RoomV {
    RoomV { code: r.code, leader: r.leader, players: r.players.remove(j), canceller }
}

/// Whether `timer` is the currently armed cleanup canceller of the seat
/// `(code, username)`.
pub open spec fn seat_timer_armed(
    s: StateV,
    code: Seq<char>,
    username: Seq<char>,
    timer: u64,
) -> bool {
    &&& has_room(s, code)
    &&& room_has_player(s.rooms[room_index(s, code)], username)
    &&& s.rooms[room_index(s, code)].players[player_index(
        s.rooms[room_index(s, code)],
        username,
    )].canceller == Some(timer)
}

/// Whether `timer` is the currently armed cleanup canceller of the room
/// named `code`.
pub open spec fn room_timer_armed(s: StateV, code: Seq<char>, timer: u64) -> bool {
    &&& has_room(s, code)
    &&& s.rooms[room_index(s, code)].canceller == Some(timer)
}

/// The effect of dispossessing a previous connection, if one was
/// installed: it is told it was superseded and closed.
pub open spec fn dispossess_effects(conn: Option<Seq<char>>, timestamp: Seq<char>) -> Seq<
    EffectV,
> {
    match conn {
        Some(c) => seq![
            EffectV::SendAndClose {
                conn: c,
                frame: error_frame(
                    crate::errors::response_of(
                        MuuzikaError::ConnectedInAnotherDevice,
                        timestamp,
                    ),
                ),
            },
        ],
        None => Seq::empty(),
    }
}

impl State {
    /// Create a room for `request.username` at time `now`: pop a code from
    /// the pool, issue a token for the new seat, register the room, and arm
    /// the leader's cleanup timer.
    ///
    /// This fails exactly when the pool is empty, with `OutOfRoomCodes`.
    pub fn create_room(&mut self, request: &CreateOrJoinRoomRequest, now: u64) -> (r: (
        MuuzikaResult<RoomJoinedResponse>,
        Vec<Effect>,
    ))
        requires
            old(self)@.wf(),
            old(self).next_timer < u64::MAX,
        ensures
            final(self)@.wf(),
            final(self)@.secret == old(self)@.secret,
            final(self)@.width == old(self)@.width,
            r.0 is Err ==> final(self)@ == old(self)@ && r.1@.len() == 0,
            r.0 matches Err(e) ==> e@ == ErrV::OutOfRoomCodes,
            old(self)@.pool.len() == 0 <==> r.0 is Err,
            r.0 matches Ok(resp) ==> ({
                let v = old(self)@.pool.last();
                let text = dec_pad(v as nat, old(self)@.width as nat);
                let timer = old(self)@.next_timer;
                &&& old(self)@.pool.len() > 0
                &&& final(self)@.pool == old(self)@.pool.drop_last()
                &&& final(self)@.rooms == old(self)@.rooms.push(
                    fresh_room(text, request.username@, now, timer),
                )
                &&& final(self)@.next_timer == timer + 1
                &&& resp.room_code@ == text
                &&& resp.token@ == token_of(old(self)@.secret, now, text, request.username@)
                &&& claims_of(old(self)@.secret, resp.token@) == Some(
                    (now, text, request.username@),
                )
                &&& effects_v(r.1@) == seq![
                    EffectV::ArmPlayerTimer { code: text, username: request.username@, timer },
                ]
            }),
    {
        let popped = self.available_codes.pop();
        let v = match popped {
            None => {
                proof {
                    assert(self@ =~= old(self)@);
                }
                return (Err(MuuzikaError::OutOfRoomCodes), Vec::new());
            },
            Some(v) => v,
        };
        proof {
            assert((old(self)@.pool[old(self)@.pool.len() - 1] as nat) < pow10(
                old(self)@.width as nat,
            ));
            assert(self.available_codes@ =~= old(self)@.pool.drop_last());
        }
        let code = RoomCode { text: crate::codes::render_code(v, self.width) };
        let token = match crate::auth::encode_token(
            &self.jwt_secret,
            now,
            &code,
            &request.username,
        ) {
            Ok(t) => t,
            Err(_) => vstd::pervasive::unreached(),
        };
        let timer = self.next_timer;
        self.next_timer = timer + 1;
        let mut leader = Player::new(request.username.clone(), now);
        leader.canceller = Some(timer);
        let room = Room::new(code.clone(), leader);
        self.rooms.push(room);
        let effects = vec![
            Effect::ArmPlayerTimer {
                code: code.clone(),
                username: request.username.clone(),
                timer,
            },
        ];
        let response = RoomJoinedResponse { room_code: code, token };
        proof {
            let pre = old(self)@;
            let post = self@;
            let w = pre.width as nat;
            let text = dec_pad(v as nat, w);
            crate::codes::lemma_dec_pad_props(v as nat, w);
            assert(post.rooms =~= pre.rooms.push(
                fresh_room(text, request.username@, now, pre.next_timer),
            ));
            assert(effects_v(effects@) =~= seq![
                EffectV::ArmPlayerTimer {
                    code: text,
                    username: request.username@,
                    timer: pre.next_timer,
                },
            ]);
            assert(post.wf()) by {
                let nr = fresh_room(text, request.username@, now, pre.next_timer);
                assert(room_wf(nr, w));
                assert forall|i: int| 0 <= i < post.rooms.len() implies room_wf(
                    #[trigger] post.rooms[i],
                    post.width as nat,
                ) by {
                    if i < pre.rooms.len() {
                        assert(room_wf(pre.rooms[i], w));
                    }
                }
                assert forall|i: int, j: int| 0 <= i < j < post.rooms.len() implies (
                #[trigger] post.rooms[i]).code != (#[trigger] post.rooms[j]).code by {
                    if j < pre.rooms.len() {
                    } else {
                        assert(post.rooms[j] == nr);
                        assert(room_wf(pre.rooms[i], w));
                        if pre.rooms[i].code == text {
                            crate::codes::lemma_digits_val_canonical(pre.rooms[i].code, w);
                            assert(digits_val(pre.rooms[i].code) == v as nat);
                            assert(pre.pool[pre.pool.len() - 1] as nat != digits_val(
                                pre.rooms[i].code,
                            ));
                        }
                    }
                }
                assert forall|i: int, j: int|
                    0 <= i < post.pool.len() && 0 <= j < post.rooms.len() implies (
                #[trigger] post.pool[i]) as nat != digits_val(#[trigger] post.rooms[j].code) by {
                    if j < pre.rooms.len() {
                        assert(pre.pool[i] as nat != digits_val(pre.rooms[j].code));
                    } else {
                        assert(digits_val(post.rooms[j].code) == v as nat);
                        if post.pool[i] == v {
                            assert(pre.pool[i] == pre.pool[pre.pool.len() - 1]);
                        }
                    }
                }
                assert forall|val: int| 0 <= val < pow10(post.width as nat) implies pool_has(
                    post,
                    val,
                ) || rooms_have(post, val) by {
                    assert(pool_has(pre, val) || rooms_have(pre, val));
                    if pool_has(pre, val) {
                        let i = choose|i: int|
                            0 <= i < pre.pool.len() && pre.pool[i] == val;
                        if i < pre.pool.len() - 1 {
                            assert(post.pool[i] == val);
                            assert(pool_has(post, val));
                        } else {
                            assert(val == v);
                            assert(digits_val(post.rooms[post.rooms.len() - 1].code)
                                == v as nat);
                            assert(rooms_have(post, val));
                        }
                    } else {
                        let j = choose|j: int|
                            0 <= j < pre.rooms.len() && digits_val(
                                #[trigger] pre.rooms[j].code,
                            ) == val;
                        assert(digits_val(post.rooms[j].code) == val);
                        assert(rooms_have(post, val));
                    }
                }
            }
        }
        (Ok(response), effects)
    }

    /// Join `request.username` into the room named by `room_code` at time
    /// `now`: issue a token for the new seat, append the seat, fan
    /// `PlayerJoined` out to the occupants, cancel a pending
    /// room-destruction timer, and arm the new seat's cleanup timer.
    ///
    /// This fails exactly when the room does not exist or the name is
    /// already taken in it.
    pub fn join_room(
        &mut self,
        room_code: &RoomCode,
        request: &CreateOrJoinRoomRequest,
        now: u64,
    ) -> (r: (MuuzikaResult<RoomJoinedResponse>, Vec<Effect>))
        requires
            old(self)@.wf(),
            old(self).next_timer < u64::MAX,
        ensures
            final(self)@.wf(),
            final(self)@.secret == old(self)@.secret,
            final(self)@.width == old(self)@.width,
            r.0 is Err ==> final(self)@ == old(self)@ && r.1@.len() == 0,
            !has_room(old(self)@, room_code@) <==> (r.0 matches Err(e) && e@ == (
            ErrV::RoomNotFound { room_code: room_code@ })),
            (has_room(old(self)@, room_code@) && room_has_player(
                old(self)@.rooms[room_index(old(self)@, room_code@)],
                request.username@,
            )) <==> (r.0 matches Err(e) && e@ == (ErrV::UsernameTaken {
                room_code: room_code@,
                username: request.username@,
            })),
            r.0 matches Err(e) ==> (e@ == (ErrV::RoomNotFound { room_code: room_code@ }) || e@
                == (ErrV::UsernameTaken {
                room_code: room_code@,
                username: request.username@,
            })),
            (has_room(old(self)@, room_code@) && !room_has_player(
                old(self)@.rooms[room_index(old(self)@, room_code@)],
                request.username@,
            )) ==> r.0 is Ok,
            r.0 matches Ok(resp) ==> ({
                let i = room_index(old(self)@, room_code@);
                let pre_room = old(self)@.rooms[i];
                let timer = old(self)@.next_timer;
                &&& has_room(old(self)@, room_code@)
                &&& !room_has_player(pre_room, request.username@)
                &&& final(self)@.rooms == old(self)@.rooms.update(
                    i,
                    joined_room(pre_room, request.username@, now, timer),
                )
                &&& final(self)@.pool == old(self)@.pool
                &&& final(self)@.next_timer == timer + 1
                &&& resp.room_code@ == room_code@
                &&& resp.token@ == token_of(
                    old(self)@.secret,
                    now,
                    room_code@,
                    request.username@,
                )
                &&& claims_of(old(self)@.secret, resp.token@) == Some(
                    (now, room_code@, request.username@),
                )
                &&& effects_v(r.1@) == fanout(
                    pre_room.players,
                    event_frame("PlayerJoined"@, request.username@),
                    None,
                ) + cancel_effects(pre_room.canceller) + seq![
                    EffectV::ArmPlayerTimer {
                        code: room_code@,
                        username: request.username@,
                        timer,
                    },
                ]
            }),
    {
        let i = match self.find_room(room_code) {
            None => {
                proof {
                    assert(self@ =~= old(self)@);
                }
                return (
                    Err(MuuzikaError::RoomNotFound { room_code: room_code.clone() }),
                    Vec::new(),
                );
            },
            Some(i) => i,
        };
        proof {
            crate::state::lemma_room_index_unique(old(self)@, room_code@, i as int);
        }
        if self.rooms[i].has_player(&request.username) {
            proof {
                assert(self@ =~= old(self)@);
            }
            return (
                Err(
                    MuuzikaError::UsernameTaken {
                        room_code: room_code.clone(),
                        username: request.username.clone(),
                    },
                ),
                Vec::new(),
            );
        }
        let token = match crate::auth::encode_token(
            &self.jwt_secret,
            now,
            room_code,
            &request.username,
        ) {
            Ok(t) => t,
            Err(_) => vstd::pervasive::unreached(),
        };
        let timer = self.next_timer;
        self.next_timer = timer + 1;
        let frame = crate::wire::make_frame(
            &crate::messages::ServerMessage::PlayerJoined(request.username.clone()),
            None,
        );
        let ghost pre_room: RoomV = old(self)@.rooms[i as int];
        let room = crate::strutil::vec_index_mut(&mut self.rooms, i);
        let mut player = Player::new(request.username.clone(), now);
        player.canceller = Some(timer);
        let pending = room.canceller;
        room.players.push(player);
        room.canceller = None;
        let mut effects = room.send_frame(&frame);
        let ghost sent_v = effects@.map_values(|e: Effect| e@);
        match pending {
            Some(t) => effects.push(Effect::CancelTimer { timer: t }),
            None => {},
        }
        let ghost with_cancel = effects@.map_values(|e: Effect| e@);
        effects.push(
            Effect::ArmPlayerTimer {
                code: room_code.clone(),
                username: request.username.clone(),
                timer,
            },
        );
        let response = RoomJoinedResponse { room_code: room_code.clone(), token };
        proof {
            let pre = old(self)@;
            let post = self@;
            let w = pre.width as nat;
            let u = request.username@;
            let newp = fresh_player(u, now, timer);
            let newr = joined_room(pre_room, u, now, timer);
            let ef = event_frame("PlayerJoined"@, u);
            assert(post.rooms =~= pre.rooms.update(i as int, newr)) by {
                assert forall|j: int| 0 <= j < post.rooms.len() implies post.rooms[j]
                    == pre.rooms.update(i as int, newr)[j] by {
                    if j == i as int {
                        assert(post.rooms[j].players =~= newr.players);
                        assert(post.rooms[j] =~= newr);
                    }
                }
            }
            assert(frame@ == ef);
            crate::rooms::lemma_fanout_push(pre_room.players, newp, ef, None);
            assert(sent_v == fanout(pre_room.players, ef, None)) by {
                assert(sent_v == fanout(post.rooms[i as int].players, ef, None));
                assert(post.rooms[i as int] == pre.rooms.update(i as int, newr)[i as int]);
                assert(sent_v == fanout(pre_room.players.push(newp), ef, None));
                assert(fanout(pre_room.players, ef, None) + fanout_one(newp, ef, None) =~= fanout(
                    pre_room.players,
                    ef,
                    None,
                ));
            }
            assert(with_cancel =~= sent_v + cancel_effects(pre_room.canceller));
            assert(effects_v(effects@) =~= with_cancel + seq![
                EffectV::ArmPlayerTimer { code: room_code@, username: u, timer },
            ]);
            assert(effects_v(effects@) =~= fanout(pre_room.players, ef, None) + cancel_effects(
                pre_room.canceller,
            ) + seq![EffectV::ArmPlayerTimer { code: room_code@, username: u, timer }]);
            assert(post.wf()) by {
                assert(room_wf(pre_room, w));
                assert(room_wf(newr, w)) by {
                    assert forall|a: int, b: int| 0 <= a < b < newr.players.len() implies (
                    #[trigger] newr.players[a]).username != (
                    #[trigger] newr.players[b]).username by {
                        if b < pre_room.players.len() {
                        } else {
                            assert(newr.players[b] == newp);
                            assert(!room_has_player(pre_room, u));
                            assert(pre_room.players[a].username != u);
                        }
                    }
                }
                assert forall|j: int| 0 <= j < post.rooms.len() implies room_wf(
                    #[trigger] post.rooms[j],
                    w,
                ) by {
                    if j != i as int {
                        assert(post.rooms[j] == pre.rooms[j]);
                        assert(room_wf(pre.rooms[j], w));
                    }
                }
                assert(forall|j: int|
                    0 <= j < post.rooms.len() ==> (#[trigger] post.rooms[j]).code
                        == pre.rooms[j].code);
                assert(post.pool == pre.pool);
                assert(forall|a: int|
                    0 <= a < post.pool.len() ==> ((#[trigger] post.pool[a]) as nat) < pow10(w));
                assert(forall|a: int, b: int|
                    0 <= a < b < post.pool.len() ==> post.pool[a] != post.pool[b]);
                assert forall|a: int, b: int| 0 <= a < b < post.rooms.len() implies (
                #[trigger] post.rooms[a]).code != (#[trigger] post.rooms[b]).code by {
                    assert(pre.rooms[a].code != pre.rooms[b].code);
                }
                assert forall|a: int, b: int|
                    0 <= a < post.pool.len() && 0 <= b < post.rooms.len() implies (
                #[trigger] post.pool[a]) as nat != digits_val(#[trigger] post.rooms[b].code) by {
                    assert(pre.pool[a] as nat != digits_val(pre.rooms[b].code));
                }
                assert forall|v: int| 0 <= v < pow10(w) implies pool_has(post, v) || rooms_have(
                    post,
                    v,
                ) by {
                    if pool_has(pre, v) {
                        let k = choose|k: int| 0 <= k < pre.pool.len() && pre.pool[k] == v;
                        assert(post.pool[k] == v);
                        assert(pool_has(post, v));
                    } else {
                        assert(rooms_have(pre, v));
                        let j = choose|j: int|
                            0 <= j < pre.rooms.len() && digits_val(
                                #[trigger] pre.rooms[j].code,
                            ) == v;
                        assert(digits_val(post.rooms[j].code) == v);
                        assert(rooms_have(post, v));
                    }
                }
            }
        }
        (Ok(response), effects)
    }

    /// Install a live connection on the seat a token names: verify the
    /// token, check the seat version, dispossess any previous connection,
    /// cancel a pending seat-cleanup timer, fan `PlayerConnected` out to
    /// the other occupants, and build the sync snapshot for the new
    /// connection.
    ///
    /// `timestamp` stamps the error body sent to a dispossessed
    /// connection.
    pub fn connect_player(&mut self, token: &String, conn_id: &String, timestamp: &String) -> (r:
        (MuuzikaResult<RoomSyncDto>, Vec<Effect>))
        requires
            old(self)@.wf(),
        ensures
            final(self)@.wf(),
            final(self)@.secret == old(self)@.secret,
            final(self)@.width == old(self)@.width,
            final(self)@.pool == old(self)@.pool,
            final(self)@.next_timer == old(self)@.next_timer,
            r.0 is Err ==> final(self)@ == old(self)@ && r.1@.len() == 0,
            ({
                let pre = old(self)@;
                let co = claims_of(pre.secret, token@);
                &&& (co is None ==> (r.0 matches Err(e) && e@ == ErrV::InvalidToken))
                &&& (co matches Some(c) ==> {
                    let iat = c.0;
                    let code = c.1;
                    let username = c.2;
                    &&& (!has_room(pre, code) ==> (r.0 matches Err(e) && e@ == (
                    ErrV::RoomNotFound { room_code: code })))
                    &&& (has_room(pre, code) ==> {
                        let i = room_index(pre, code);
                        let room = pre.rooms[i];
                        &&& (!room_has_player(room, username) ==> (r.0 matches Err(e) && e@
                            == (ErrV::PlayerNotInRoom { room_code: code, username })))
                        &&& (room_has_player(room, username) ==> {
                            let j = player_index(room, username);
                            let p = room.players[j];
                            &&& (iat != p.created_at ==> (r.0 matches Err(e) && e@ == (
                            ErrV::UsernameTaken { room_code: code, username })))
                            &&& (iat == p.created_at ==> {
                                let post_room = connected_room(room, j, conn_id@);
                                &&& r.0 is Ok
                                &&& final(self)@.rooms == pre.rooms.update(i, post_room)
                                &&& (r.0 matches Ok(sync) ==> {
                                    &&& sync.you@ == username
                                    &&& sync.room.code@ == code
                                    &&& sync.room.leader@ == room.leader
                                    &&& sync.room.players@.map_values(
                                        |d: PlayerDto| crate::rooms::dto_fields(d),
                                    ) == post_room.players.map_values(
                                        |q: PlayerV| crate::rooms::dto_of_player(q),
                                    )
                                })
                                &&& effects_v(r.1@) == dispossess_effects(p.conn, timestamp@)
                                    + fanout(
                                    post_room.players,
                                    event_frame("PlayerConnected"@, username),
                                    Some(username),
                                ) + cancel_effects(p.canceller)
                            })
                        })
                    })
                })
            }),
    {
        let claims = match crate::auth::decode_token(&self.jwt_secret, token) {
            Ok(c) => c,
            Err(e) => {
                proof {
                    assert(self@ =~= old(self)@);
                }
                return (Err(e), Vec::new());
            },
        };
        let i = match self.find_room(&claims.room_code) {
            None => {
                proof {
                    assert(self@ =~= old(self)@);
                }
                return (
                    Err(MuuzikaError::RoomNotFound { room_code: claims.room_code }),
                    Vec::new(),
                );
            },
            Some(i) => i,
        };
        proof {
            crate::state::lemma_room_index_unique(old(self)@, claims.room_code@, i as int);
            assert(room_wf(old(self)@.rooms[i as int], old(self)@.width as nat));
        }
        let j = match self.rooms[i].find_player(&claims.username) {
            None => {
                proof {
                    assert(self@ =~= old(self)@);
                }
                return (
                    Err(
                        MuuzikaError::PlayerNotInRoom {
                            room_code: claims.room_code,
                            username: claims.username,
                        },
                    ),
                    Vec::new(),
                );
            },
            Some(j) => j,
        };
        proof {
            crate::state::lemma_player_index_unique(
                old(self)@.rooms[i as int],
                old(self)@.width as nat,
                claims.username@,
                j as int,
            );
        }
        if self.rooms[i].players[j].created_at != claims.iat {
            proof {
                assert(self@ =~= old(self)@);
            }
            return (
                Err(
                    MuuzikaError::UsernameTaken {
                        room_code: claims.room_code,
                        username: claims.username,
                    },
                ),
                Vec::new(),
            );
        }
        let ghost pre_room: RoomV = old(self)@.rooms[i as int];
        let ghost pre_player: PlayerV = pre_room.players[j as int];
        let mut effects: Vec<Effect> = Vec::new();
        let room = crate::strutil::vec_index_mut(&mut self.rooms, i);
        let player = crate::strutil::vec_index_mut(&mut room.players, j);
        let old_conn: Option<String> = match &player.conn {
            Some(c) => Some(c.clone()),
            None => None,
        };
        let pending = player.canceller;
        player.conn = Some(conn_id.clone());
        player.canceller = None;
        match old_conn {
            Some(oldc) => {
                let body = crate::errors::ErrorResponse::from_error(
                    &MuuzikaError::ConnectedInAnotherDevice,
                    timestamp.clone(),
                );
                let f = crate::wire::make_frame(
                    &crate::messages::ServerMessage::Error(body),
                    None,
                );
                effects.push(Effect::SendAndClose { conn: oldc, frame: f });
            },
            None => {},
        }
        let ghost after_close = effects@.map_values(|e: Effect| e@);
        let f2 = crate::wire::make_frame(
            &crate::messages::ServerMessage::PlayerConnected(claims.username.clone()),
            None,
        );
        let mut fan = room.send_frame_except(&f2, Some(&claims.username));
        effects.append(&mut fan);
        let ghost after_fan = effects@.map_values(|e: Effect| e@);
        match pending {
            Some(t) => effects.push(Effect::CancelTimer { timer: t }),
            None => {},
        }
        let sync = RoomSyncDto {
            you: claims.username.clone(),
            room: crate::rooms::RoomDto::from_room(room),
        };
        proof {
            let pre = old(self)@;
            let post = self@;
            let w = pre.width as nat;
            let u = claims.username@;
            let post_room = connected_room(pre_room, j as int, conn_id@);
            assert(post.rooms =~= pre.rooms.update(i as int, post_room)) by {
                assert forall|k: int| 0 <= k < post.rooms.len() implies post.rooms[k]
                    == pre.rooms.update(i as int, post_room)[k] by {
                    if k == i as int {
                        assert(post.rooms[k].players =~= post_room.players) by {
                            assert forall|a: int|
                                0 <= a < post.rooms[k].players.len() implies post.rooms[k].players[a]
                                == post_room.players[a] by {
                                if a == j as int {
                                    assert(post.rooms[k].players[a] =~= post_room.players[a]);
                                }
                            }
                        }
                        assert(post.rooms[k] =~= post_room);
                    }
                }
            }
            assert(after_close =~= dispossess_effects(pre_player.conn, timestamp@));
            let ef = event_frame("PlayerConnected"@, u);
            assert(f2@ == ef);
            assert(after_fan =~= after_close + fanout(post_room.players, ef, Some(u))) by {
                assert(fanout(post.rooms[i as int].players, ef, Some(u)) == fanout(
                    post_room.players,
                    ef,
                    Some(u),
                ));
            }
            assert(effects_v(effects@) =~= after_fan + cancel_effects(pre_player.canceller));
            assert(effects_v(effects@) =~= dispossess_effects(pre_player.conn, timestamp@)
                + fanout(post_room.players, ef, Some(u)) + cancel_effects(
                pre_player.canceller,
            ));
            assert(post.wf()) by {
                assert(room_wf(pre_room, w));
                assert(room_wf(post_room, w)) by {
                    assert forall|a: int, b: int|
                        0 <= a < b < post_room.players.len() implies (
                    #[trigger] post_room.players[a]).username != (
                    #[trigger] post_room.players[b]).username by {
                        assert(pre_room.players[a].username != pre_room.players[b].username);
                    }
                    assert forall|a: int|
                        0 <= a < post_room.players.len() implies ((
                    #[trigger] post_room.players[a]).conn is Some
                        ==> post_room.players[a].canceller is None) by {
                        if a != j as int {
                            assert(pre_room.players[a].conn is Some
                                ==> pre_room.players[a].canceller is None);
                        }
                    }
                    assert(pre_room.canceller is Some ==> pre_room.players.len() == 0);
                }
                assert forall|k: int| 0 <= k < post.rooms.len() implies room_wf(
                    #[trigger] post.rooms[k],
                    w,
                ) by {
                    if k != i as int {
                        assert(post.rooms[k] == pre.rooms[k]);
                        assert(room_wf(pre.rooms[k], w));
                    }
                }
                assert(forall|k: int|
                    0 <= k < post.rooms.len() ==> (#[trigger] post.rooms[k]).code
                        == pre.rooms[k].code);
                assert(post.pool == pre.pool);
                assert forall|a: int, b: int| 0 <= a < b < post.rooms.len() implies (
                #[trigger] post.rooms[a]).code != (#[trigger] post.rooms[b]).code by {
                    assert(pre.rooms[a].code != pre.rooms[b].code);
                }
                assert forall|a: int, b: int|
                    0 <= a < post.pool.len() && 0 <= b < post.rooms.len() implies (
                #[trigger] post.pool[a]) as nat != digits_val(#[trigger] post.rooms[b].code) by {
                    assert(pre.pool[a] as nat != digits_val(pre.rooms[b].code));
                }
                assert forall|v: int| 0 <= v < pow10(w) implies pool_has(post, v) || rooms_have(
                    post,
                    v,
                ) by {
                    if pool_has(pre, v) {
                        let k = choose|k: int| 0 <= k < pre.pool.len() && pre.pool[k] == v;
                        assert(post.pool[k] == v);
                        assert(pool_has(post, v));
                    } else {
                        assert(rooms_have(pre, v));
                        let k = choose|k: int|
                            0 <= k < pre.rooms.len() && digits_val(
                                #[trigger] pre.rooms[k].code,
                            ) == v;
                        assert(digits_val(post.rooms[k].code) == v);
                        assert(rooms_have(post, v));
                    }
                }
            }
        }
        (Ok(sync), effects)
    }

    /// Tear down one connection's ownership of a seat. If a newer
    /// connection has already superseded `conn_id` nothing changes and no
    /// event is emitted; otherwise the seat goes offline, the occupants
    /// are told, and the seat's cleanup timer is armed.
    pub fn disconnect_player(
        &mut self,
        room_code: &RoomCode,
        username: &Username,
        conn_id: &String,
    ) -> (r: (MuuzikaResult<()>, Vec<Effect>))
        requires
            old(self)@.wf(),
            old(self).next_timer < u64::MAX,
        ensures
            final(self)@.wf(),
            final(self)@.secret == old(self)@.secret,
            final(self)@.width == old(self)@.width,
            final(self)@.pool == old(self)@.pool,
            r.0 is Err ==> final(self)@ == old(self)@ && r.1@.len() == 0,
            ({
                let pre = old(self)@;
                &&& (!has_room(pre, room_code@) ==> (r.0 matches Err(e) && e@ == (
                ErrV::RoomNotFound { room_code: room_code@ })))
                &&& (has_room(pre, room_code@) ==> {
                    let i = room_index(pre, room_code@);
                    let room = pre.rooms[i];
                    &&& (!room_has_player(room, username@) ==> (r.0 matches Err(e) && e@ == (
                    ErrV::PlayerNotInRoom { room_code: room_code@, username: username@ })))
                    &&& (room_has_player(room, username@) ==> {
                        let j = player_index(room, username@);
                        let p = room.players[j];
                        &&& (p.conn matches Some(c) && c != conn_id@ ==> r.0 is Ok
                            && final(self)@ == pre && r.1@.len() == 0)
                        &&& ((p.conn is None || p.conn == Some(conn_id@)) ==> {
                            let timer = pre.next_timer;
                            let post_room = disconnected_room(room, j, timer);
                            &&& r.0 is Ok
                            &&& final(self)@.rooms == pre.rooms.update(i, post_room)
                            &&& final(self)@.next_timer == timer + 1
                            &&& effects_v(r.1@) == fanout(
                                post_room.players,
                                event_frame("PlayerDisconnected"@, username@),
                                None,
                            ) + seq![
                                EffectV::ArmPlayerTimer {
                                    code: room_code@,
                                    username: username@,
                                    timer,
                                },
                            ]
                        })
                    })
                })
            }),
    {
        let i = match self.find_room(room_code) {
            None => {
                proof {
                    assert(self@ =~= old(self)@);
                }
                return (
                    Err(MuuzikaError::RoomNotFound { room_code: room_code.clone() }),
                    Vec::new(),
                );
            },
            Some(i) => i,
        };
        proof {
            crate::state::lemma_room_index_unique(old(self)@, room_code@, i as int);
            assert(room_wf(old(self)@.rooms[i as int], old(self)@.width as nat));
        }
        let j = match self.rooms[i].find_player(username) {
            None => {
                proof {
                    assert(self@ =~= old(self)@);
                }
                return (
                    Err(
                        MuuzikaError::PlayerNotInRoom {
                            room_code: room_code.clone(),
                            username: username.clone(),
                        },
                    ),
                    Vec::new(),
                );
            },
            Some(j) => j,
        };
        proof {
            crate::state::lemma_player_index_unique(
                old(self)@.rooms[i as int],
                old(self)@.width as nat,
                username@,
                j as int,
            );
        }
        let superseded = match &self.rooms[i].players[j].conn {
            Some(c) => !(*c == *conn_id),
            None => false,
        };
        if superseded {
            proof {
                assert(self@ =~= old(self)@);
            }
            return (Ok(()), Vec::new());
        }
        let ghost pre_room: RoomV = old(self)@.rooms[i as int];
        let timer = self.next_timer;
        self.next_timer = timer + 1;
        let room = crate::strutil::vec_index_mut(&mut self.rooms, i);
        let player = crate::strutil::vec_index_mut(&mut room.players, j);
        player.conn = None;
        player.canceller = Some(timer);
        let f = crate::wire::make_frame(
            &crate::messages::ServerMessage::PlayerDisconnected(username.clone()),
            None,
        );
        let mut effects = room.send_frame(&f);
        effects.push(
            Effect::ArmPlayerTimer {
                code: room_code.clone(),
                username: username.clone(),
                timer,
            },
        );
        proof {
            let pre = old(self)@;
            let post = self@;
            let w = pre.width as nat;
            let post_room = disconnected_room(pre_room, j as int, timer);
            assert(post.rooms =~= pre.rooms.update(i as int, post_room)) by {
                assert forall|k: int| 0 <= k < post.rooms.len() implies post.rooms[k]
                    == pre.rooms.update(i as int, post_room)[k] by {
                    if k == i as int {
                        assert(post.rooms[k].players =~= post_room.players) by {
                            assert forall|a: int|
                                0 <= a < post.rooms[k].players.len() implies post.rooms[k].players[a]
                                == post_room.players[a] by {
                                if a == j as int {
                                    assert(post.rooms[k].players[a] =~= post_room.players[a]);
                                }
                            }
                        }
                        assert(post.rooms[k] =~= post_room);
                    }
                }
            }
            let ef = event_frame("PlayerDisconnected"@, username@);
            assert(f@ == ef);
            assert(effects_v(effects@) =~= fanout(post_room.players, ef, None) + seq![
                EffectV::ArmPlayerTimer { code: room_code@, username: username@, timer },
            ]) by {
                assert(fanout(post.rooms[i as int].players, ef, None) == fanout(
                    post_room.players,
                    ef,
                    None,
                ));
            }
            assert(post.wf()) by {
                assert(room_wf(pre_room, w));
                assert(room_wf(post_room, w)) by {
                    assert forall|a: int, b: int|
                        0 <= a < b < post_room.players.len() implies (
                    #[trigger] post_room.players[a]).username != (
                    #[trigger] post_room.players[b]).username by {
                        assert(pre_room.players[a].username != pre_room.players[b].username);
                    }
                    assert forall|a: int|
                        0 <= a < post_room.players.len() implies ((
                    #[trigger] post_room.players[a]).conn is Some
                        ==> post_room.players[a].canceller is None) by {
                        if a != j as int {
                            assert(pre_room.players[a].conn is Some
                                ==> pre_room.players[a].canceller is None);
                        }
                    }
                    assert(pre_room.canceller is Some ==> pre_room.players.len() == 0);
                }
                assert forall|k: int| 0 <= k < post.rooms.len() implies room_wf(
                    #[trigger] post.rooms[k],
                    w,
                ) by {
                    if k != i as int {
                        assert(post.rooms[k] == pre.rooms[k]);
                        assert(room_wf(pre.rooms[k], w));
                    }
                }
                assert(forall|k: int|
                    0 <= k < post.rooms.len() ==> (#[trigger] post.rooms[k]).code
                        == pre.rooms[k].code);
                assert(post.pool == pre.pool);
                assert forall|a: int, b: int| 0 <= a < b < post.rooms.len() implies (
                #[trigger] post.rooms[a]).code != (#[trigger] post.rooms[b]).code by {
                    assert(pre.rooms[a].code != pre.rooms[b].code);
                }
                assert forall|a: int, b: int|
                    0 <= a < post.pool.len() && 0 <= b < post.rooms.len() implies (
                #[trigger] post.pool[a]) as nat != digits_val(#[trigger] post.rooms[b].code) by {
                    assert(pre.pool[a] as nat != digits_val(pre.rooms[b].code));
                }
                assert forall|v: int| 0 <= v < pow10(w) implies pool_has(post, v) || rooms_have(
                    post,
                    v,
                ) by {
                    if pool_has(pre, v) {
                        let k = choose|k: int| 0 <= k < pre.pool.len() && pre.pool[k] == v;
                        assert(post.pool[k] == v);
                        assert(pool_has(post, v));
                    } else {
                        assert(rooms_have(pre, v));
                        let k = choose|k: int|
                            0 <= k < pre.rooms.len() && digits_val(
                                #[trigger] pre.rooms[k].code,
                            ) == v;
                        assert(digits_val(post.rooms[k].code) == v);
                        assert(rooms_have(post, v));
                    }
                }
            }
        }
        (Ok(()), effects)
    }

    /// The expiry step of a seat's grace period. It acts only when `timer`
    /// is still the armed canceller of that seat — a timer that was
    /// cancelled or replaced finds a different id and does nothing. When it
    /// acts it removes the seat, tells the remaining occupants, and, if the
    /// room is now empty, arms the room-destruction timer.
    pub fn player_cleanup_timeout(
        &mut self,
        room_code: &RoomCode,
        username: &Username,
        timer: u64,
    ) -> (r: Vec<Effect>)
        requires
            old(self)@.wf(),
            old(self).next_timer < u64::MAX,
        ensures
            final(self)@.wf(),
            final(self)@.secret == old(self)@.secret,
            final(self)@.width == old(self)@.width,
            final(self)@.pool == old(self)@.pool,
            !seat_timer_armed(old(self)@, room_code@, username@, timer) ==> final(self)@ == old(
                self,
            )@ && r@.len() == 0,
            seat_timer_armed(old(self)@, room_code@, username@, timer) ==> ({
                let pre = old(self)@;
                let i = room_index(pre, room_code@);
                let room = pre.rooms[i];
                let j = player_index(room, username@);
                let remaining = room.players.remove(j);
                let ef = event_frame("PlayerLeft"@, username@);
                &&& (remaining.len() > 0 ==> {
                    &&& final(self)@.rooms == pre.rooms.update(
                        i,
                        reaped_room(room, j, room.canceller),
                    )
                    &&& final(self)@.next_timer == pre.next_timer
                    &&& effects_v(r@) == fanout(remaining, ef, None)
                })
                &&& (remaining.len() == 0 ==> {
                    &&& final(self)@.rooms == pre.rooms.update(
                        i,
                        reaped_room(room, j, Some(pre.next_timer)),
                    )
                    &&& final(self)@.next_timer == pre.next_timer + 1
                    &&& effects_v(r@) == seq![
                        EffectV::ArmRoomTimer { code: room_code@, timer: pre.next_timer },
                    ]
                })
            }),
    {
        let i = match self.find_room(room_code) {
            None => {
                proof {
                    assert(self@ =~= old(self)@);
                }
                return Vec::new();
            },
            Some(i) => i,
        };
        proof {
            crate::state::lemma_room_index_unique(old(self)@, room_code@, i as int);
            assert(room_wf(old(self)@.rooms[i as int], old(self)@.width as nat));
        }
        let j = match self.rooms[i].find_player(username) {
            None => {
                proof {
                    assert(self@ =~= old(self)@);
                }
                return Vec::new();
            },
            Some(j) => j,
        };
        proof {
            crate::state::lemma_player_index_unique(
                old(self)@.rooms[i as int],
                old(self)@.width as nat,
                username@,
                j as int,
            );
        }
        let armed = match self.rooms[i].players[j].canceller {
            Some(t) => t == timer,
            None => false,
        };
        if !armed {
            proof {
                assert(self@ =~= old(self)@);
            }
            return Vec::new();
        }
        let ghost pre_room: RoomV = old(self)@.rooms[i as int];
        let room_timer = self.next_timer;
        let room = crate::strutil::vec_index_mut(&mut self.rooms, i);
        room.players.remove(j);
        let f = crate::wire::make_frame(
            &crate::messages::ServerMessage::PlayerLeft(username.clone()),
            None,
        );
        let mut effects = room.send_frame(&f);
        let empty_now = room.players.len() == 0;
        if empty_now {
            room.canceller = Some(room_timer);
        }
        if empty_now {
            self.next_timer = room_timer + 1;
            effects.push(Effect::ArmRoomTimer { code: room_code.clone(), timer: room_timer });
        }
        proof {
            let pre = old(self)@;
            let post = self@;
            let w = pre.width as nat;
            let remaining = pre_room.players.remove(j as int);
            let post_canceller: Option<u64> = if remaining.len() == 0 {
                Some(room_timer)
            } else {
                pre_room.canceller
            };
            let post_room = reaped_room(pre_room, j as int, post_canceller);
            assert(post.rooms =~= pre.rooms.update(i as int, post_room)) by {
                assert forall|k: int| 0 <= k < post.rooms.len() implies post.rooms[k]
                    == pre.rooms.update(i as int, post_room)[k] by {
                    if k == i as int {
                        assert(post.rooms[k].players =~= post_room.players);
                        assert(post.rooms[k] =~= post_room);
                    }
                }
            }
            let ef = event_frame("PlayerLeft"@, username@);
            assert(f@ == ef);
            if remaining.len() == 0 {
                assert(fanout(remaining, ef, None) =~= Seq::<EffectV>::empty());
                assert(effects_v(effects@) =~= seq![
                    EffectV::ArmRoomTimer { code: room_code@, timer: pre.next_timer },
                ]) by {
                    assert(fanout(post.rooms[i as int].players, ef, None) == fanout(
                        remaining,
                        ef,
                        None,
                    ));
                }
            } else {
                assert(effects_v(effects@) =~= fanout(remaining, ef, None)) by {
                    assert(fanout(post.rooms[i as int].players, ef, None) == fanout(
                        remaining,
                        ef,
                        None,
                    ));
                }
            }
            assert(post.wf()) by {
                assert(room_wf(pre_room, w));
                assert(room_wf(post_room, w)) by {
                    assert forall|a: int, b: int|
                        0 <= a < b < post_room.players.len() implies (
                    #[trigger] post_room.players[a]).username != (
                    #[trigger] post_room.players[b]).username by {
                        let a0: int = if a < j as int {
                            a
                        } else {
                            a + 1
                        };
                        let b0: int = if b < j as int {
                            b
                        } else {
                            b + 1
                        };
                        assert(post_room.players[a] == pre_room.players[a0]);
                        assert(post_room.players[b] == pre_room.players[b0]);
                        assert(pre_room.players[a0].username != pre_room.players[b0].username);
                    }
                    assert forall|a: int|
                        0 <= a < post_room.players.len() implies ((
                    #[trigger] post_room.players[a]).conn is Some
                        ==> post_room.players[a].canceller is None) by {
                        let a0: int = if a < j as int {
                            a
                        } else {
                            a + 1
                        };
                        assert(post_room.players[a] == pre_room.players[a0]);
                        assert(pre_room.players[a0].conn is Some ==> pre_room.players[a0].canceller
                            is None);
                    }
                }
                assert forall|k: int| 0 <= k < post.rooms.len() implies room_wf(
                    #[trigger] post.rooms[k],
                    w,
                ) by {
                    if k != i as int {
                        assert(post.rooms[k] == pre.rooms[k]);
                        assert(room_wf(pre.rooms[k], w));
                    }
                }
                assert(forall|k: int|
                    0 <= k < post.rooms.len() ==> (#[trigger] post.rooms[k]).code
                        == pre.rooms[k].code);
                assert(post.pool == pre.pool);
                assert forall|a: int, b: int| 0 <= a < b < post.rooms.len() implies (
                #[trigger] post.rooms[a]).code != (#[trigger] post.rooms[b]).code by {
                    assert(pre.rooms[a].code != pre.rooms[b].code);
                }
                assert forall|a: int, b: int|
                    0 <= a < post.pool.len() && 0 <= b < post.rooms.len() implies (
                #[trigger] post.pool[a]) as nat != digits_val(#[trigger] post.rooms[b].code) by {
                    assert(pre.pool[a] as nat != digits_val(pre.rooms[b].code));
                }
                assert forall|v: int| 0 <= v < pow10(w) implies pool_has(post, v) || rooms_have(
                    post,
                    v,
                ) by {
                    if pool_has(pre, v) {
                        let k = choose|k: int| 0 <= k < pre.pool.len() && pre.pool[k] == v;
                        assert(post.pool[k] == v);
                        assert(pool_has(post, v));
                    } else {
                        assert(rooms_have(pre, v));
                        let k = choose|k: int|
                            0 <= k < pre.rooms.len() && digits_val(
                                #[trigger] pre.rooms[k].code,
                            ) == v;
                        assert(digits_val(post.rooms[k].code) == v);
                        assert(rooms_have(post, v));
                    }
                }
            }
        }
        effects
    }

    /// The expiry step of an empty room's grace period. It acts only when
    /// `timer` is still the room's armed canceller; the invariant then
    /// guarantees the room is empty. When it acts it removes the room from
    /// the registry and returns its code to the pool.
    pub fn room_cleanup_timeout(&mut self, room_code: &RoomCode, timer: u64)
        requires
            old(self)@.wf(),
        ensures
            final(self)@.wf(),
            final(self)@.secret == old(self)@.secret,
            final(self)@.width == old(self)@.width,
            final(self)@.next_timer == old(self)@.next_timer,
            !room_timer_armed(old(self)@, room_code@, timer) ==> final(self)@ == old(self)@,
            room_timer_armed(old(self)@, room_code@, timer) ==> ({
                let pre = old(self)@;
                let i = room_index(pre, room_code@);
                &&& final(self)@.rooms == pre.rooms.remove(i)
                &&& final(self)@.pool == pre.pool.push(
                    digits_val(pre.rooms[i].code) as u32,
                )
            }),
    {
        let i = match self.find_room(room_code) {
            None => {
                proof {
                    assert(self@ =~= old(self)@);
                }
                return ;
            },
            Some(i) => i,
        };
        proof {
            crate::state::lemma_room_index_unique(old(self)@, room_code@, i as int);
            assert(room_wf(old(self)@.rooms[i as int], old(self)@.width as nat));
        }
        let armed = match self.rooms[i].canceller {
            Some(t) => t == timer,
            None => false,
        };
        if !armed {
            proof {
                assert(self@ =~= old(self)@);
            }
            return ;
        }
        let room = self.rooms.remove(i);
        proof {
            crate::codes::lemma_digits_val_canonical(room@.code, old(self)@.width as nat);
        }
        let v = match crate::codes::parse_code(room.code.text.as_str(), self.width) {
            Some(v) => v,
            None => {
                proof {
                    assert(false);
                }
                0
            },
        };
        self.available_codes.push(v);
        proof {
            let pre = old(self)@;
            let post = self@;
            let w = pre.width as nat;
            let pre_room = pre.rooms[i as int];
            let pv = digits_val(pre_room.code) as u32;
            assert(v == pv);
            assert(post.rooms =~= pre.rooms.remove(i as int));
            assert(post.pool =~= pre.pool.push(pv));
            assert(post.wf()) by {
                assert forall|k: int| 0 <= k < post.rooms.len() implies room_wf(
                    #[trigger] post.rooms[k],
                    w,
                ) by {
                    let k0: int = if k < i as int {
                        k
                    } else {
                        k + 1
                    };
                    assert(post.rooms[k] == pre.rooms[k0]);
                    assert(room_wf(pre.rooms[k0], w));
                }
                assert forall|a: int| 0 <= a < post.pool.len() implies ((
                #[trigger] post.pool[a]) as nat) < pow10(w) by {
                    if a < pre.pool.len() {
                        assert((pre.pool[a] as nat) < pow10(w));
                    }
                }
                assert forall|a: int, b: int| 0 <= a < b < post.pool.len() implies post.pool[a]
                    != post.pool[b] by {
                    if b < pre.pool.len() {
                    } else {
                        assert(post.pool[b] == pv);
                        assert(pre.pool[a] as nat != digits_val(pre_room.code));
                    }
                }
                assert forall|a: int, b: int| 0 <= a < b < post.rooms.len() implies (
                #[trigger] post.rooms[a]).code != (#[trigger] post.rooms[b]).code by {
                    let a0: int = if a < i as int {
                        a
                    } else {
                        a + 1
                    };
                    let b0: int = if b < i as int {
                        b
                    } else {
                        b + 1
                    };
                    assert(post.rooms[a] == pre.rooms[a0]);
                    assert(post.rooms[b] == pre.rooms[b0]);
                    assert(pre.rooms[a0].code != pre.rooms[b0].code);
                }
                assert forall|a: int, b: int|
                    0 <= a < post.pool.len() && 0 <= b < post.rooms.len() implies (
                #[trigger] post.pool[a]) as nat != digits_val(#[trigger] post.rooms[b].code) by {
                    let b0: int = if b < i as int {
                        b
                    } else {
                        b + 1
                    };
                    assert(post.rooms[b] == pre.rooms[b0]);
                    if a < pre.pool.len() {
                        assert(pre.pool[a] as nat != digits_val(pre.rooms[b0].code));
                    } else {
                        assert(post.pool[a] == pv);
                        assert(room_wf(pre.rooms[b0], w));
                        if digits_val(pre.rooms[b0].code) == pv as nat {
                            crate::codes::lemma_digits_val_canonical(pre.rooms[b0].code, w);
                            assert(pre.rooms[b0].code == pre_room.code);
                            assert(pre.rooms[b0].code != pre_room.code);
                        }
                    }
                }
                assert forall|u: int| 0 <= u < pow10(w) implies pool_has(post, u) || rooms_have(
                    post,
                    u,
                ) by {
                    if pool_has(pre, u) {
                        let k = choose|k: int| 0 <= k < pre.pool.len() && pre.pool[k] == u;
                        assert(post.pool[k] == u);
                        assert(pool_has(post, u));
                    } else {
                        assert(rooms_have(pre, u));
                        let k = choose|k: int|
                            0 <= k < pre.rooms.len() && digits_val(
                                #[trigger] pre.rooms[k].code,
                            ) == u;
                        if k == i as int {
                            assert(post.pool[post.pool.len() - 1] == pv);
                            assert(pool_has(post, u));
                        } else {
                            let k1: int = if k < i as int {
                                k
                            } else {
                                k - 1
                            };
                            assert(post.rooms[k1] == pre.rooms[k]);
                            assert(digits_val(post.rooms[k1].code) == u);
                            assert(rooms_have(post, u));
                        }
                    }
                }
            }
        }
    }
}

} // verus!
