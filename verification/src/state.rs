//! The shared server state: registry, code pool, signing secret, and the
//! timer-id counter, with the invariant every lobby operation preserves.

use vstd::prelude::*;

use crate::codes::{all_digits, digits_val, pow10, RoomCode};
use crate::rooms::{Room, RoomV};

verus! {

/// All authoritative state of one server process.
pub struct State {
    /// Symmetric secret the token codec signs with.
    pub jwt_secret: String,
    /// Width of every room code, in decimal digits.
    pub width: u8,
    /// Codes not currently held by any room, in pop order (pop takes the
    /// tail, push appends).
    pub available_codes: Vec<u32>,
    /// The registry: every live room, unordered.
    pub rooms: Vec<Room>,
    /// Next fresh timer id.
    pub next_timer: u64,
}

/// Mathematical model of the server state.
#[verifier::ext_equal]
pub struct StateV {
    pub secret: Seq<char>,
    pub width: u8,
    pub pool: Seq<u32>,
    pub rooms: Seq<RoomV>,
    pub next_timer: u64,
}

impl View for State {
    type V = StateV;

    open spec fn view(&self) -> StateV {
        StateV {
            secret: self.jwt_secret@,
            width: self.width,
            pool: self.available_codes@,
            rooms: self.rooms@.map_values(|r: Room| r@),
            next_timer: self.next_timer,
        }
    }
}

/// Whether the registry holds a room with this code text.
pub open spec fn has_room(s: StateV, code: Seq<char>) -> bool {
    exists|i: int| 0 <= i < s.rooms.len() && (#[trigger] s.rooms[i]).code == code
}

/// The registry index of the room with this code text; meaningful only
/// when `has_room` holds (the invariant makes it unique).
pub open spec fn room_index(s: StateV, code: Seq<char>) -> int {
    choose|i: int| 0 <= i < s.rooms.len() && (#[trigger] s.rooms[i]).code == code
}

/// Whether the room holds a seat for this username.
pub open spec fn room_has_player(r: RoomV, username: Seq<char>) -> bool {
    exists|j: int| 0 <= j < r.players.len() && (#[trigger] r.players[j]).username == username
}

/// The seat index of this username; meaningful only when
/// `room_has_player` holds (the invariant makes it unique).
pub open spec fn player_index(r: RoomV, username: Seq<char>) -> int {
    choose|j: int| 0 <= j < r.players.len() && (#[trigger] r.players[j]).username == username
}

/// Whether the pool holds the code value `v`.
pub open spec fn pool_has(s: StateV, v: int) -> bool {
    exists|i: int| 0 <= i < s.pool.len() && s.pool[i] == v
}

/// Whether some registered room holds the code value `v`.
pub open spec fn rooms_have(s: StateV, v: int) -> bool {
    exists|i: int| 0 <= i < s.rooms.len() && digits_val(#[trigger] s.rooms[i].code) == v
}

/// Per-room well-formedness: a valid code, unique usernames, no seat both
/// online and pending cleanup, and a pending room canceller only on an
/// empty room.
pub open spec fn room_wf(r: RoomV, w: nat) -> bool {
    &&& r.code.len() == w && all_digits(r.code)
    &&& forall|i: int, j: int|
        0 <= i < j < r.players.len() ==> (#[trigger] r.players[i]).username != (
        #[trigger] r.players[j]).username
    &&& forall|i: int|
        0 <= i < r.players.len() ==> ((#[trigger] r.players[i]).conn is Some
            ==> r.players[i].canceller is None)
    &&& (r.canceller is Some ==> r.players.len() == 0)
}

/// Every timer id armed inside the room is below `next`: ids are minted
/// from a counter, so a cancelled or replaced timer can never alias one
/// armed later.
pub open spec fn room_timers_lt(r: RoomV, next: u64) -> bool {
    &&& (r.canceller matches Some(t) ==> t < next)
    &&& forall|i: int|
        0 <= i < r.players.len() ==> ((#[trigger] r.players[i]).canceller matches Some(t) ==> t
            < next)
}

impl StateV {
    /// The full state invariant. Besides per-room well-formedness it pins
    /// the disjoint-union property of room codes: every code value of the
    /// configured width is in the pool or in the registry, never in both
    /// and never twice.
    pub open spec fn wf(self) -> bool {
        &&& 1 <= self.width <= 9
        &&& forall|i: int|
            0 <= i < self.rooms.len() ==> room_wf(#[trigger] self.rooms[i], self.width as nat)
        &&& forall|i: int|
            0 <= i < self.rooms.len() ==> room_timers_lt(#[trigger] self.rooms[i], self.next_timer)
        &&& forall|i: int|
            0 <= i < self.pool.len() ==> (#[trigger] self.pool[i] as nat) < pow10(
                self.width as nat,
            )
        &&& forall|i: int, j: int|
            0 <= i < j < self.pool.len() ==> self.pool[i] != self.pool[j]
        &&& forall|i: int, j: int|
            0 <= i < j < self.rooms.len() ==> (#[trigger] self.rooms[i]).code != (
            #[trigger] self.rooms[j]).code
        &&& forall|i: int, j: int|
            0 <= i < self.pool.len() && 0 <= j < self.rooms.len() ==> (
            #[trigger] self.pool[i]) as nat != digits_val(#[trigger] self.rooms[j].code)
        &&& forall|v: int|
            0 <= v < pow10(self.width as nat) ==> pool_has(self, v) || rooms_have(self, v)
    }
}

/// After every operation, no seat is both online and pending cleanup: a
/// player with a connection installed has no armed cleanup canceller.
pub proof fn lemma_no_seat_both_online_and_pending(s: StateV, i: int, j: int)
    requires
        s.wf(),
        0 <= i < s.rooms.len(),
        0 <= j < s.rooms[i].players.len(),
        s.rooms[i].players[j].conn is Some,
    ensures
        s.rooms[i].players[j].canceller is None,
{
    assert(room_wf(s.rooms[i], s.width as nat));
}

/// After every operation, a room with a pending destruction canceller has
/// no players.
pub proof fn lemma_pending_room_is_empty(s: StateV, i: int)
    requires
        s.wf(),
        0 <= i < s.rooms.len(),
        s.rooms[i].canceller is Some,
    ensures
        s.rooms[i].players.len() == 0,
{
    assert(room_wf(s.rooms[i], s.width as nat));
}

/// The disjoint-union law: between operations every code of the configured
/// width is in the pool or in the registry and never in both, so the pool
/// size and the room count always add up to the whole code universe.
pub proof fn lemma_code_partition(s: StateV)
    requires
        s.wf(),
    ensures
        s.pool.len() + s.rooms.len() == pow10(s.width as nat),
{
    let w = s.width as nat;
    let pool_vals = s.pool.map_values(|v: u32| v as int);
    let room_vals = s.rooms.map_values(|r: RoomV| digits_val(r.code) as int);
    let all = pool_vals + room_vals;
    assert(all.len() == s.pool.len() + s.rooms.len());
    assert forall|a: int, b: int| 0 <= a < b < all.len() implies all[a] != all[b] by {
        let n = pool_vals.len() as int;
        if b < n {
            assert(s.pool[a] != s.pool[b]);
            assert(all[a] == s.pool[a] as int && all[b] == s.pool[b] as int);
        } else if a >= n {
            let ra = s.rooms[a - n];
            let rb = s.rooms[b - n];
            assert(all[a] == digits_val(ra.code) as int && all[b] == digits_val(rb.code) as int);
            assert(ra.code != rb.code);
            assert(room_wf(ra, w) && room_wf(rb, w));
            if digits_val(ra.code) == digits_val(rb.code) {
                crate::codes::lemma_digits_val_canonical(ra.code, w);
                crate::codes::lemma_digits_val_canonical(rb.code, w);
            }
        } else {
            assert(all[a] == s.pool[a] as int);
            assert(all[b] == digits_val(s.rooms[b - n].code) as int);
            assert(s.pool[a] as nat != digits_val(s.rooms[b - n].code));
        }
    }
    assert(all.no_duplicates());
    let universe = vstd::set_lib::set_int_range(0, pow10(w) as int);
    assert(all.to_set() =~= universe) by {
        assert forall|x: int| all.to_set().contains(x) implies 0 <= x < pow10(w) by {
            assert(all.contains(x));
            let k = choose|k: int| 0 <= k < all.len() && all[k] == x;
            let n = pool_vals.len() as int;
            if k < n {
                assert(all[k] == s.pool[k] as int);
                assert((s.pool[k] as nat) < pow10(w));
            } else {
                let r = s.rooms[k - n];
                assert(all[k] == digits_val(r.code) as int);
                assert(room_wf(r, w));
                crate::codes::lemma_digits_val_canonical(r.code, w);
            }
        }
        assert forall|x: int| 0 <= x < pow10(w) implies all.to_set().contains(x) by {
            assert(pool_has(s, x) || rooms_have(s, x));
            let n = pool_vals.len() as int;
            if pool_has(s, x) {
                let k = choose|k: int| 0 <= k < s.pool.len() && s.pool[k] == x;
                assert(all[k] == x);
                assert(all.contains(x));
            } else {
                let k = choose|k: int|
                    0 <= k < s.rooms.len() && digits_val(#[trigger] s.rooms[k].code) == x;
                assert(all[n + k] == x);
                assert(all.contains(x));
            }
        }
    }
    all.unique_seq_to_set();
    vstd::set_lib::lemma_int_range(0, pow10(w) as int);
}

/// Under the invariant, the room found at `i` is the one `room_index`
/// names: room codes are unique.
pub proof fn lemma_room_index_unique(s: StateV, code: Seq<char>, i: int)
    requires
        s.wf(),
        0 <= i < s.rooms.len(),
        s.rooms[i].code == code,
    ensures
        has_room(s, code),
        room_index(s, code) == i,
{
    assert(has_room(s, code));
    let j = room_index(s, code);
    assert(0 <= j < s.rooms.len() && s.rooms[j].code == code);
    if i < j {
        assert(s.rooms[i].code != s.rooms[j].code);
    }
    if j < i {
        assert(s.rooms[j].code != s.rooms[i].code);
    }
}

/// Under per-room well-formedness, the seat found at `j` is the one
/// `player_index` names: usernames are unique within a room.
pub proof fn lemma_player_index_unique(r: RoomV, w: nat, username: Seq<char>, j: int)
    requires
        room_wf(r, w),
        0 <= j < r.players.len(),
        r.players[j].username == username,
    ensures
        room_has_player(r, username),
        player_index(r, username) == j,
{
    assert(room_has_player(r, username));
    let k = player_index(r, username);
    assert(0 <= k < r.players.len() && r.players[k].username == username);
    if j < k {
        assert(r.players[j].username != r.players[k].username);
    }
    if k < j {
        assert(r.players[k].username != r.players[j].username);
    }
}

/// Relies on `rand`'s `SliceRandom::shuffle` with the thread-local
/// generator: it permutes the slice in place, so the multiset of elements
/// (and hence the length) is unchanged; nothing is assumed about the order.
#[verifier::external_body]
pub(crate) fn shuffle_codes(codes: &mut Vec<u32>)
    ensures
        final(codes)@.to_multiset() == old(codes)@.to_multiset(),
        final(codes)@.len() == old(codes)@.len(),
{
    rand::seq::SliceRandom::shuffle(codes.as_mut_slice(), &mut rand::thread_rng());
}

impl State {
    /// A fresh state: no rooms, and a pool holding every code of width
    /// `width` exactly once, in a shuffled order.
    pub fn new(jwt_secret: String, width: u8) -> (r: State)
        requires
            1 <= width <= 9,
        ensures
            r@.wf(),
            r@.secret == jwt_secret@,
            r@.width == width,
            r@.rooms.len() == 0,
            r@.pool.len() == pow10(width as nat),
            r@.next_timer == 0,
    {
        let n = pow10_exec(width);
        let mut codes: Vec<u32> = Vec::new();
        let mut c: u32 = 0;
        while c < n
            invariant
                c <= n,
                codes@.len() == c,
                forall|j: int| 0 <= j < c ==> #[trigger] codes@[j] == j,
            decreases n - c,
        {
            codes.push(c);
            c += 1;
        }
        proof {
            assert(codes@.no_duplicates());
            codes@.lemma_multiset_has_no_duplicates();
        }
        let ghost generated = codes@;
        shuffle_codes(&mut codes);
        let st = State {
            jwt_secret,
            width,
            available_codes: codes,
            rooms: Vec::new(),
            next_timer: 0,
        };
        proof {
            broadcast use vstd::seq_lib::group_to_multiset_ensures;

            crate::codes::lemma_pow10_bounds();
            crate::codes::lemma_pow10_mono(width as nat, 9);
            let pool = st@.pool;
            assert(pool.to_multiset() == generated.to_multiset());
            assert(st@.rooms =~= Seq::<RoomV>::empty());
            assert forall|v: int| 0 <= v < pow10(width as nat) implies pool_has(st@, v) by {
                assert(generated[v] == v);
                assert(generated.contains(v as u32));
                assert(generated.to_multiset().count(v as u32) > 0);
                assert(pool.contains(v as u32));
                let i = choose|i: int| 0 <= i < pool.len() && pool[i] == v as u32;
                assert(pool[i] == v);
            }
            assert forall|i: int| 0 <= i < pool.len() implies (#[trigger] pool[i] as nat) < pow10(
                width as nat,
            ) by {
                assert(pool.contains(pool[i]));
                assert(pool.to_multiset().count(pool[i]) > 0);
                assert(generated.contains(pool[i]));
                let j = choose|j: int| 0 <= j < generated.len() && generated[j] == pool[i];
                assert(generated[j] == j);
            }
            assert(pool.no_duplicates()) by {
                assert forall|x: u32| pool.to_multiset().contains(x) implies pool.to_multiset()
                    .count(x) == 1 by {
                    assert(generated.to_multiset().count(x) <= 1);
                }
                pool.lemma_multiset_has_no_duplicates_conv();
            }
            assert(forall|i: int, j: int| 0 <= i < j < pool.len() ==> pool[i] != pool[j]);
            assert(pool.len() == generated.len());
            assert(st@.wf());
        }
        st
    }

    /// The registry index of the room with this code, if any.
    pub fn find_room(&self, code: &RoomCode) -> (r: Option<usize>)
        ensures
            match r {
                Some(i) => 0 <= i < self@.rooms.len() && self@.rooms[i as int].code == code@,
                None => forall|i: int|
                    0 <= i < self@.rooms.len() ==> (#[trigger] self@.rooms[i]).code != code@,
            },
    {
        let mut i: usize = 0;
        while i < self.rooms.len()
            invariant
                i <= self.rooms.len(),
                forall|j: int| 0 <= j < i ==> (#[trigger] self@.rooms[j]).code != code@,
            decreases self.rooms.len() - i,
        {
            if self.rooms[i].code.text == code.text {
                return Some(i);
            }
            i += 1;
        }
        None
    }
}

/// Exact exec mirror of `pow10` for widths up to 9.
pub fn pow10_exec(w: u8) -> (r: u32)
    requires
        w <= 9,
    ensures
        r as nat == pow10(w as nat),
{
    proof {
        crate::codes::lemma_pow10_bounds();
    }
    let mut r: u32 = 1;
    let mut i: u8 = 0;
    while i < w
        invariant
            i <= w <= 9,
            r as nat == pow10(i as nat),
            pow10(9) == 1000000000,
        decreases w - i,
    {
        proof {
            crate::codes::lemma_pow10_mono(i as nat + 1, 9);
            assert(pow10(i as nat + 1) == 10 * pow10(i as nat));
        }
        r = r * 10;
        i += 1;
    }
    r
}

} // verus!
