//! Rooms and players: the per-room state that the lobby operations mutate.

use vstd::prelude::*;

use crate::codes::RoomCode;
use crate::lobby::{Effect, EffectV};

verus! {

/// A non-empty opaque string naming a player; equality is exact string
/// equality, unique only within a single room.
#[derive(Debug, PartialEq, Eq)]
pub struct Username {
    pub text: String,
}

impl Clone for Username {
    fn clone(&self) -> (r: Self)
        ensures
            r@ == self@,
    {
        Username { text: self.text.clone() }
    }
}

impl View for Username {
    type V = Seq<char>;

    open spec fn view(&self) -> Seq<char> {
        self.text@
    }
}

impl Username {
    pub fn new(text: String) -> (r: Username)
        ensures
            r@ == text@,
    {
        Username { text }
    }

    /// Exact string comparison of two usernames.
    pub fn same_as(&self, other: &Username) -> (r: bool)
        ensures
            r == (self@ == other@),
    {
        self.text == other.text
    }
}

pub type Score = u32;

/// The seat of one username in one room.
pub struct Player {
    pub username: Username,
    pub score: Score,
    pub created_at: u64,
    /// The id of the connection currently owning this seat, if any.
    pub conn: Option<String>,
    /// The id of the armed player-cleanup timer, if any.
    pub canceller: Option<u64>,
}

/// Mathematical model of a `Player`.
#[verifier::ext_equal]
pub struct PlayerV {
    pub username: Seq<char>,
    pub score: Score,
    pub created_at: u64,
    pub conn: Option<Seq<char>>,
    pub canceller: Option<u64>,
}

impl View for Player {
    type V = PlayerV;

    open spec fn view(&self) -> PlayerV {
        PlayerV {
            username: self.username@,
            score: self.score,
            created_at: self.created_at,
            conn: match self.conn {
                Some(ref c) => Some(c@),
                None => None,
            },
            canceller: self.canceller,
        }
    }
}

impl Player {
    /// A fresh offline seat created at time `now`.
    pub fn new(username: Username, now: u64) -> (r: Player)
        ensures
            r@ == (PlayerV {
                username: username@,
                score: 0,
                created_at: now,
                conn: None,
                canceller: None,
            }),
    {
        Player { username, score: 0, created_at: now, conn: None, canceller: None }
    }
}

/// An in-memory session hosting a set of players that share a fan-out bus.
pub struct Room {
    pub code: RoomCode,
    /// The creator; never reassigned, and may name a departed player.
    pub leader: Username,
    pub players: Vec<Player>,
    /// The id of the armed room-cleanup timer, if any.
    pub canceller: Option<u64>,
}

/// Mathematical model of a `Room`.
#[verifier::ext_equal]
pub struct RoomV {
    pub code: Seq<char>,
    pub leader: Seq<char>,
    pub players: Seq<PlayerV>,
    pub canceller: Option<u64>,
}

impl View for Room {
    type V = RoomV;

    open spec fn view(&self) -> RoomV {
        RoomV {
            code: self.code@,
            leader: self.leader@,
            players: self.players@.map_values(|p: Player| p@),
            canceller: self.canceller,
        }
    }
}

impl Room {
    /// A new room containing exactly its leader.
    pub fn new(code: RoomCode, leader: Player) -> (r: Room)
        ensures
            r@ == (RoomV {
                code: code@,
                leader: leader@.username,
                players: seq![leader@],
                canceller: None,
            }),
    {
        let leader_username = leader.username.clone();
        let mut players = Vec::new();
        players.push(leader);
        proof {
            assert(players@.map_values(|p: Player| p@) =~= seq![players@[0]@]);
        }
        Room { code, leader: leader_username, players, canceller: None }
    }

    /// The index of the player with this username, if present.
    pub fn find_player(&self, username: &Username) -> (r: Option<usize>)
        ensures
            match r {
                Some(i) => 0 <= i < self@.players.len() && self@.players[i as int].username
                    == username@,
                None => forall|i: int|
                    0 <= i < self@.players.len() ==> (#[trigger] self@.players[i]).username
                        != username@,
            },
    {
        let mut i: usize = 0;
        while i < self.players.len()
            invariant
                i <= self.players.len(),
                forall|j: int|
                    0 <= j < i ==> (#[trigger] self@.players[j]).username != username@,
            decreases self.players.len() - i,
        {
            if self.players[i].username.same_as(username) {
                return Some(i);
            }
            i += 1;
        }
        None
    }

    /// Whether the player with this username is present.
    pub fn has_player(&self, username: &Username) -> (r: bool)
        ensures
            r == exists|i: int|
                0 <= i < self@.players.len() && (#[trigger] self@.players[i]).username
                    == username@,
    {
        self.find_player(username).is_some()
    }

    /// A reference to the player with this username, if present.
    pub fn get_player(&self, username: &Username) -> (r: Option<&Player>)
        ensures
            match r {
                Some(p) => exists|i: int|
                    0 <= i < self@.players.len() && #[trigger] self@.players[i] == p@
                        && p@.username == username@,
                None => forall|i: int|
                    0 <= i < self@.players.len() ==> (#[trigger] self@.players[i]).username
                        != username@,
            },
    {
        match self.find_player(username) {
            Some(i) => Some(&self.players[i]),
            None => None,
        }
    }

    /// The frame-delivery effects of fanning one serialized frame out to
    /// every online player, optionally skipping one username.
    pub fn send_frame_except(&self, frame: &String, except: Option<&Username>) -> (r: Vec<
        Effect,
    >)
        ensures
            r@.map_values(|e: Effect| e@) == fanout(
                self@.players,
                frame@,
                match except {
                    Some(u) => Some(u@),
                    None => None,
                },
            ),
    {
        let ghost except_v: Option<Seq<char>> = match except {
            Some(u) => Some(u@),
            None => None,
        };
        let mut out: Vec<Effect> = Vec::new();
        let mut i: usize = 0;
        proof {
            assert(out@.map_values(|e: Effect| e@) =~= fanout(
                self@.players.take(0),
                frame@,
                except_v,
            ));
        }
        while i < self.players.len()
            invariant
                i <= self.players.len(),
                out@.map_values(|e: Effect| e@) == fanout(
                    self@.players.take(i as int),
                    frame@,
                    except_v,
                ),
                except_v == (match except {
                    Some(u) => Some(u@),
                    None => None,
                }),
            decreases self.players.len() - i,
        {
            let p = &self.players[i];
            let skip = match except {
                Some(u) => p.username.same_as(u),
                None => false,
            };
            if !skip {
                match p.conn {
                    Some(ref conn) => {
                        out.push(Effect::Send { conn: conn.clone(), frame: frame.clone() });
                    },
                    None => {},
                }
            }
            i += 1;
            proof {
                let pl = self@.players;
                assert(pl.take(i as int).drop_last() =~= pl.take(i - 1));
                assert(pl.take(i as int).last() == pl[i - 1]);
                assert(out@.map_values(|e: Effect| e@) =~= fanout(
                    pl.take(i as int),
                    frame@,
                    except_v,
                ));
            }
        }
        proof {
            assert(self@.players.take(self.players.len() as int) =~= self@.players);
        }
        out
    }

    /// Fan a serialized frame out to every online player.
    pub fn send_frame(&self, frame: &String) -> (r: Vec<Effect>)
        ensures
            r@.map_values(|e: Effect| e@) == fanout(self@.players, frame@, None),
    {
        self.send_frame_except(frame, None)
    }

    /// Serialize a message once and fan it out to every online player.
    pub fn send(&self, message: &crate::messages::ServerMessage) -> (r: Vec<Effect>)
        ensures
            r@.map_values(|e: Effect| e@) == fanout(
                self@.players,
                crate::wire::frame_of(*message, None),
                None,
            ),
    {
        let f = crate::wire::make_frame(message, None);
        self.send_frame(&f)
    }

    /// Serialize a message once and fan it out to every online player but
    /// the named one.
    pub fn send_except(&self, message: &crate::messages::ServerMessage, except: &Username) -> (r:
        Vec<Effect>)
        ensures
            r@.map_values(|e: Effect| e@) == fanout(
                self@.players,
                crate::wire::frame_of(*message, None),
                Some(except@),
            ),
    {
        let f = crate::wire::make_frame(message, None);
        self.send_frame_except(&f, Some(except))
    }
}

/// The delivery effects of one fan-out: one `Send` per online player, in
/// player order, skipping `except` when given.
pub open spec fn fanout(players: Seq<PlayerV>, frame: Seq<char>, except: Option<Seq<char>>) -> Seq<
    EffectV,
>
    decreases players.len(),
{
    if players.len() == 0 {
        Seq::empty()
    } else {
        fanout(players.drop_last(), frame, except) + fanout_one(players.last(), frame, except)
    }
}

/// The delivery effects for a single player: one `Send` when the player is
/// online and not excluded.
pub open spec fn fanout_one(p: PlayerV, frame: Seq<char>, except: Option<Seq<char>>) -> Seq<
    EffectV,
> {
    match p.conn {
        Some(conn) => if except matches Some(u) && u == p.username {
            Seq::empty()
        } else {
            seq![EffectV::Send { conn, frame }]
        },
        None => Seq::empty(),
    }
}

/// Fanning out to one more player appends that player's effects.
pub proof fn lemma_fanout_push(
    ps: Seq<PlayerV>,
    p: PlayerV,
    frame: Seq<char>,
    except: Option<Seq<char>>,
)
    ensures
        fanout(ps.push(p), frame, except) == fanout(ps, frame, except) + fanout_one(
            p,
            frame,
            except,
        ),
{
    assert(ps.push(p).drop_last() =~= ps);
    assert(ps.push(p).last() == p);
}

/// The public picture of one player inside a sync snapshot.
#[derive(Debug, Clone)]
pub struct PlayerDto {
    pub username: Username,
    pub score: Score,
    pub is_online: bool,
}

impl PlayerDto {
    pub fn from_player(p: &Player) -> (r: PlayerDto)
        ensures
            r.username@ == p@.username,
            r.score == p@.score,
            r.is_online == (p@.conn is Some),
    {
        PlayerDto {
            username: p.username.clone(),
            score: p.score,
            is_online: p.conn.is_some(),
        }
    }
}

/// The public picture of one room inside a sync snapshot.
#[derive(Debug, Clone)]
pub struct RoomDto {
    pub code: RoomCode,
    pub leader: Username,
    pub players: Vec<PlayerDto>,
}

/// The model of a player dto, as derived from a player model.
pub open spec fn dto_of_player(p: PlayerV) -> (Seq<char>, Score, bool) {
    (p.username, p.score, p.conn is Some)
}

/// The model fields of a player dto.
pub open spec fn dto_fields(d: PlayerDto) -> (Seq<char>, Score, bool) {
    (d.username@, d.score, d.is_online)
}

impl RoomDto {
    pub fn from_room(room: &Room) -> (r: RoomDto)
        ensures
            r.code@ == room@.code,
            r.leader@ == room@.leader,
            r.players@.map_values(|d: PlayerDto| dto_fields(d)) == room@.players.map_values(
                |p: PlayerV| dto_of_player(p),
            ),
    {
        let mut players: Vec<PlayerDto> = Vec::new();
        let mut i: usize = 0;
        while i < room.players.len()
            invariant
                i <= room.players.len(),
                players@.len() == i,
                forall|j: int|
                    0 <= j < i ==> dto_fields(#[trigger] players@[j]) == dto_of_player(
                        room@.players[j],
                    ),
            decreases room.players.len() - i,
        {
            players.push(PlayerDto::from_player(&room.players[i]));
            i += 1;
        }
        proof {
            assert(players@.map_values(|d: PlayerDto| dto_fields(d)) =~= room@.players.map_values(
                |p: PlayerV| dto_of_player(p),
            ));
        }
        RoomDto { code: room.code.clone(), leader: room.leader.clone(), players }
    }
}

/// The snapshot sent to a connection right after it takes over a seat.
#[derive(Debug, Clone)]
pub struct RoomSyncDto {
    pub you: Username,
    pub room: RoomDto,
}

} // verus!
