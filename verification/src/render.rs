//! Rendering of the plain scalars that appear inside field paths: decimal
//! numbers for ordinal segments and map keys, and the two boolean words.

use vstd::prelude::*;

verus! {

/// The decimal digit character for `d` (meaningful for `d < 10`).
pub open spec fn digit_char(d: nat) -> char {
    if d == 0 {
        '0'
    } else if d == 1 {
        '1'
    } else if d == 2 {
        '2'
    } else if d == 3 {
        '3'
    } else if d == 4 {
        '4'
    } else if d == 5 {
        '5'
    } else if d == 6 {
        '6'
    } else if d == 7 {
        '7'
    } else if d == 8 {
        '8'
    } else {
        '9'
    }
}

/// The decimal rendering of `n`, most significant digit first, no sign and
/// no leading zeros (`0` renders as "0").
pub open spec fn spec_dec(n: nat) -> Seq<char>
    decreases n,
{
    if n < 10 {
        seq![digit_char(n)]
    } else {
        spec_dec(n / 10).push(digit_char(n % 10))
    }
}

/// The decimal rendering of a signed value: a leading '-' for negatives.
pub open spec fn spec_dec_i64(v: i64) -> Seq<char> {
    if v >= 0 {
        spec_dec(v as nat)
    } else {
        seq!['-'] + spec_dec((-(v as int)) as nat)
    }
}

/// The rendering of a boolean: the word "true" or "false".
pub open spec fn spec_bool(b: bool) -> Seq<char> {
    if b {
        seq!['t', 'r', 'u', 'e']
    } else {
        seq!['f', 'a', 'l', 's', 'e']
    }
}

fn digit_str(d: u64) -> (r: String)
    requires
        d < 10,
    ensures
        r@ == seq![digit_char(d as nat)],
{
    let s: &str = if d == 0 {
        "0"
    } else if d == 1 {
        "1"
    } else if d == 2 {
        "2"
    } else if d == 3 {
        "3"
    } else if d == 4 {
        "4"
    } else if d == 5 {
        "5"
    } else if d == 6 {
        "6"
    } else if d == 7 {
        "7"
    } else if d == 8 {
        "8"
    } else {
        "9"
    };
    proof {
        reveal_strlit("0");
        reveal_strlit("1");
        reveal_strlit("2");
        reveal_strlit("3");
        reveal_strlit("4");
        reveal_strlit("5");
        reveal_strlit("6");
        reveal_strlit("7");
        reveal_strlit("8");
        reveal_strlit("9");
        assert(s@ =~= seq![digit_char(d as nat)]);
    }
    s.to_owned()
}

/// Renders `n` in decimal.
pub fn u64_to_string(n: u64) -> (r: String)
    ensures
        r@ == spec_dec(n as nat),
    decreases n,
{
    if n < 10 {
        digit_str(n)
    } else {
        let mut s = u64_to_string(n / 10);
        let d = digit_str(n % 10);
        s.append(d.as_str());
        proof {
            assert(s@ =~= spec_dec(n as nat));
        }
        s
    }
}

/// Renders `v` in decimal, with a leading '-' when negative.
pub fn i64_to_string(v: i64) -> (r: String)
    ensures
        r@ == spec_dec_i64(v),
{
    if v >= 0 {
        u64_to_string(v as u64)
    } else {
        let m: u64 = (-(v as i128)) as u64;
        let mut s = String::from_str("-");
        let d = u64_to_string(m);
        s.append(d.as_str());
        proof {
            reveal_strlit("-");
            assert(s@ =~= spec_dec_i64(v));
        }
        s
    }
}

/// Relies on char::to_string: the string of exactly this one character.
#[verifier::external_body]
pub(crate) fn char_to_string(c: char) -> (r: String)
    ensures
        r@ == seq![c],
{
    c.to_string()
}

/// Renders `b` as "true" or "false".
pub fn bool_to_string(b: bool) -> (r: String)
    ensures
        r@ == spec_bool(b),
{
    let s: &str = if b {
        "true"
    } else {
        "false"
    };
    proof {
        reveal_strlit("true");
        reveal_strlit("false");
        assert(s@ =~= spec_bool(b));
    }
    s.to_owned()
}

} // verus!
