//! Room codes: fixed-width decimal strings.
//!
//! A room code of width `w` is one of the `10^w` decimal strings from
//! `"0...0"` to `"9...9"`. Internally the registry and the code pool track
//! codes by their numeric value; these functions render a value to its
//! fixed-width text and parse text back, with round-trip lemmas tying the
//! two directions together.

use vstd::prelude::*;

use crate::strutil::push_char;

verus! {

/// `10^w`, the number of room codes of width `w`.
pub open spec fn pow10(w: nat) -> nat
    decreases w,
{
    if w == 0 {
        1
    } else {
        10 * pow10((w - 1) as nat)
    }
}

/// The decimal digit character for `d` (`0 <= d < 10`).
pub open spec fn digit_char(d: int) -> char {
    if d == 0 {
        '0'
    } else if d == 1 {
        '1'
    } else if d == 2 {
        '2'
    } else if d == 3 {
        '3'
    } else if d == 4 {
        '4'
    } else if d == 5 {
        '5'
    } else if d == 6 {
        '6'
    } else if d == 7 {
        '7'
    } else if d == 8 {
        '8'
    } else {
        '9'
    }
}

pub open spec fn is_digit(c: char) -> bool {
    48 <= c as u32 <= 57
}

/// The numeric value of a digit character.
pub open spec fn digit_val(c: char) -> int {
    c as u32 - 48
}

pub open spec fn all_digits(s: Seq<char>) -> bool {
    forall|i: int| 0 <= i < s.len() ==> is_digit(#[trigger] s[i])
}

/// `v` rendered as exactly `w` decimal digits (most significant first).
pub open spec fn dec_pad(v: nat, w: nat) -> Seq<char>
    decreases w,
{
    if w == 0 {
        Seq::empty()
    } else {
        dec_pad(v / 10, (w - 1) as nat).push(digit_char((v % 10) as int))
    }
}

/// The numeric value of a digit string.
pub open spec fn digits_val(s: Seq<char>) -> nat
    decreases s.len(),
{
    if s.len() == 0 {
        0nat
    } else {
        (digits_val(s.drop_last()) * 10 + digit_val(s.last())) as nat
    }
}

pub proof fn lemma_digit_char_val(d: int)
    requires
        0 <= d < 10,
    ensures
        is_digit(digit_char(d)),
        digit_val(digit_char(d)) == d,
{
}

/// Rendering produces `w` digits whose value is `v` again.
pub proof fn lemma_dec_pad_props(v: nat, w: nat)
    requires
        v < pow10(w),
    ensures
        dec_pad(v, w).len() == w,
        all_digits(dec_pad(v, w)),
        digits_val(dec_pad(v, w)) == v,
    decreases w,
{
    if w == 0 {
    } else {
        assert(pow10(w) == 10 * pow10((w - 1) as nat));
        assert(v / 10 < pow10((w - 1) as nat)) by (nonlinear_arith)
            requires
                v < 10 * pow10((w - 1) as nat),
        ;
        lemma_dec_pad_props(v / 10, (w - 1) as nat);
        lemma_digit_char_val((v % 10) as int);
        let s = dec_pad(v, w);
        assert(s.drop_last() =~= dec_pad(v / 10, (w - 1) as nat));
        assert(v == (v / 10) * 10 + (v % 10)) by (nonlinear_arith);
    }
}

/// A digit string of length `w` is the rendering of its own value.
pub proof fn lemma_digits_val_canonical(s: Seq<char>, w: nat)
    requires
        s.len() == w,
        all_digits(s),
    ensures
        digits_val(s) < pow10(w),
        dec_pad(digits_val(s), w) == s,
    decreases w,
{
    if w == 0 {
        assert(dec_pad(digits_val(s), w) =~= s);
    } else {
        let p = s.drop_last();
        assert(all_digits(p));
        lemma_digits_val_canonical(p, (w - 1) as nat);
        let hi = digits_val(p);
        let d = digit_val(s.last());
        assert(0 <= d < 10);
        assert(digits_val(s) == hi * 10 + d);
        assert(hi * 10 + d < pow10(w)) by (nonlinear_arith)
            requires
                hi < pow10((w - 1) as nat),
                0 <= d < 10,
                pow10(w) == 10 * pow10((w - 1) as nat),
        ;
        assert((hi * 10 + d) / 10 == hi && (hi * 10 + d) % 10 == d) by (nonlinear_arith)
            requires
                0 <= d < 10,
                0 <= hi,
        ;
        assert(digit_char(d) == s.last()) by {
            let c = s.last();
            lemma_digit_char_val(d);
            assert(c as u32 == 48 + d);
            assert(digit_char(d) as u32 == 48 + d);
            vstd::utf8::char_u32_cast(c, c as u32);
            vstd::utf8::char_u32_cast(digit_char(d), digit_char(d) as u32);
        }
        assert(dec_pad(digits_val(s), w) =~= s);
    }
}

/// A short fixed-width decimal string identifying a room. Equality is
/// string equality.
#[derive(Debug, PartialEq, Eq)]
pub struct RoomCode {
    pub text: String,
}

impl Clone for RoomCode {
    fn clone(&self) -> (r: Self)
        ensures
            r@ == self@,
    {
        RoomCode { text: self.text.clone() }
    }
}

impl View for RoomCode {
    type V = Seq<char>;

    open spec fn view(&self) -> Seq<char> {
        self.text@
    }
}

impl RoomCode {
    pub fn new(code: String) -> (r: RoomCode)
        ensures
            r@ == code@,
    {
        RoomCode { text: code }
    }
}

/// Exact exec mirror of `digit_char`.
pub fn digit_to_char(d: u32) -> (r: char)
    requires
        d < 10,
    ensures
        r == digit_char(d as int),
{
    if d == 0 {
        '0'
    } else if d == 1 {
        '1'
    } else if d == 2 {
        '2'
    } else if d == 3 {
        '3'
    } else if d == 4 {
        '4'
    } else if d == 5 {
        '5'
    } else if d == 6 {
        '6'
    } else if d == 7 {
        '7'
    } else if d == 8 {
        '8'
    } else {
        '9'
    }
}

/// Render a code value as its fixed-width decimal text.
pub fn render_code(v: u32, w: u8) -> (r: String)
    requires
        w <= 9,
        (v as nat) < pow10(w as nat),
    ensures
        r@ == dec_pad(v as nat, w as nat),
    decreases w,
{
    if w == 0 {
        String::new()
    } else {
        proof {
            assert(pow10(w as nat) == 10 * pow10((w - 1) as nat));
            assert(v as nat / 10 < pow10((w - 1) as nat)) by (nonlinear_arith)
                requires
                    (v as nat) < 10 * pow10((w - 1) as nat),
            ;
        }
        let mut s = render_code(v / 10, w - 1);
        push_char(&mut s, digit_to_char(v % 10));
        s
    }
}

/// Parse fixed-width decimal text back to its value; `None` when the text
/// is not exactly `w` digits.
pub fn parse_code(s: &str, w: u8) -> (r: Option<u32>)
    requires
        1 <= w <= 9,
    ensures
        match r {
            Some(v) => s@.len() == w && all_digits(s@) && v as nat == digits_val(s@) && (
            v as nat) < pow10(w as nat),
            None => !(s@.len() == w && all_digits(s@)),
        },
{
    let n = s.unicode_len();
    if n != w as usize {
        return None;
    }
    let mut val: u32 = 0;
    let mut i: usize = 0;
    proof {
        assert(s@.take(0) =~= Seq::<char>::empty());
        lemma_pow10_bounds();
    }
    while i < n
        invariant
            i <= n,
            n == s@.len(),
            1 <= w <= 9,
            n == w,
            val as nat == digits_val(s@.take(i as int)),
            all_digits(s@.take(i as int)),
            (val as nat) < pow10(i as nat),
            pow10(9) == 1000000000,
        decreases n - i,
    {
        let c = s.get_char(i);
        let cu = c as u32;
        if cu < 48 || cu > 57 {
            proof {
                assert(!is_digit(s@[i as int]));
            }
            return None;
        }
        proof {
            assert(pow10(i as nat + 1) == 10 * pow10(i as nat));
            lemma_pow10_mono(i as nat + 1, 9);
            assert(val * 10 + (cu - 48) < 10 * pow10(i as nat)) by (nonlinear_arith)
                requires
                    (val as nat) < pow10(i as nat),
                    cu - 48 < 10,
            ;
            let t = s@.take(i + 1);
            assert(t.drop_last() =~= s@.take(i as int));
            assert(t.last() == s@[i as int]);
        }
        val = val * 10 + (cu - 48);
        i += 1;
        proof {
            assert(all_digits(s@.take(i as int)));
        }
    }
    proof {
        assert(s@.take(n as int) =~= s@);
    }
    Some(val)
}

/// `pow10` is monotone in the width.
pub proof fn lemma_pow10_mono(a: nat, b: nat)
    requires
        a <= b,
    ensures
        pow10(a) <= pow10(b),
    decreases b,
{
    if a < b {
        lemma_pow10_mono(a, (b - 1) as nat);
        assert(pow10(b) == 10 * pow10((b - 1) as nat));
    }
}

/// The concrete values of `pow10` up to the maximum width.
pub proof fn lemma_pow10_bounds()
    ensures
        pow10(0) == 1,
        pow10(1) == 10,
        pow10(4) == 10000,
        pow10(9) == 1000000000,
{
    assert(pow10(0) == 1);
    assert(pow10(1) == 10);
    assert(pow10(2) == 100);
    assert(pow10(3) == 1000);
    assert(pow10(4) == 10000);
    assert(pow10(5) == 100000);
    assert(pow10(6) == 1000000);
    assert(pow10(7) == 10000000);
    assert(pow10(8) == 100000000);
    assert(pow10(9) == 1000000000);
}

} // verus!
