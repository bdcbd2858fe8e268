//! Decimal rendering of the numbers the wire encoders ship.
//!
//! Counts render as plain decimal integers; fixed-point rates render as
//! `integer.fraction` with exactly twelve fractional digits, one per decimal
//! place of [`crate::ewma::RATE_SCALE`].  Every function's output is pinned
//! to a spec-level character sequence.

use crate::ewma::RATE_SCALE;
use vstd::prelude::*;

verus! {

/// The decimal digit character for `d`.
pub open spec fn spec_digit_char(d: int) -> char
    recommends
        0 <= d < 10,
{
    if d == 0 {
        '0'
    } else if d == 1 {
        '1'
    } else if d == 2 {
        '2'
    } else if d == 3 {
        '3'
    } else if d == 4 {
        '4'
    } else if d == 5 {
        '5'
    } else if d == 6 {
        '6'
    } else if d == 7 {
        '7'
    } else if d == 8 {
        '8'
    } else {
        '9'
    }
}

/// The decimal digits of `n`, most significant first, with no leading zero
/// except for `n == 0` itself.
pub open spec fn spec_dec_digits(n: nat) -> Seq<char>
    decreases n,
{
    if n < 10 {
        seq![spec_digit_char(n as int)]
    } else {
        spec_dec_digits(n / 10).push(spec_digit_char((n % 10) as int))
    }
}

/// The decimal rendering of a signed number: a minus sign before the digits
/// of the magnitude when `n` is negative.
pub open spec fn spec_signed_dec_digits(n: int) -> Seq<char> {
    if n >= 0 {
        spec_dec_digits(n as nat)
    } else {
        seq!['-'] + spec_dec_digits((-n) as nat)
    }
}

/// The last `width` decimal digits of `n`, zero padded on the left.
pub open spec fn spec_padded_digits(n: nat, width: nat) -> Seq<char>
    decreases width,
{
    if width == 0 {
        Seq::empty()
    } else {
        spec_padded_digits(n / 10, (width - 1) as nat).push(spec_digit_char((n % 10) as int))
    }
}

/// The decimal rendering of a fixed-point rate: the whole part, a point,
/// and all twelve fractional digits.
pub open spec fn spec_fixed_dec_digits(fp: u64) -> Seq<char> {
    spec_dec_digits((fp / RATE_SCALE) as nat) + seq!['.'] + spec_padded_digits(
        (fp % RATE_SCALE) as nat,
        12,
    )
}

/// Appends the digit character for `d` to `s`.
fn push_digit(s: &mut String, d: u64)
    requires
        d < 10,
    ensures
        final(s)@ == old(s)@.push(spec_digit_char(d as int)),
{
    proof {
        reveal_strlit("0");
        reveal_strlit("1");
        reveal_strlit("2");
        reveal_strlit("3");
        reveal_strlit("4");
        reveal_strlit("5");
        reveal_strlit("6");
        reveal_strlit("7");
        reveal_strlit("8");
        reveal_strlit("9");
    }
    if d == 0 {
        s.append("0");
    } else if d == 1 {
        s.append("1");
    } else if d == 2 {
        s.append("2");
    } else if d == 3 {
        s.append("3");
    } else if d == 4 {
        s.append("4");
    } else if d == 5 {
        s.append("5");
    } else if d == 6 {
        s.append("6");
    } else if d == 7 {
        s.append("7");
    } else if d == 8 {
        s.append("8");
    } else {
        s.append("9");
    }
    proof {
        assert(final(s)@ =~= old(s)@.push(spec_digit_char(d as int)));
    }
}

/// Appends the decimal digits of `n` to `s`.
fn append_dec(s: &mut String, n: u64)
    ensures
        final(s)@ == old(s)@ + spec_dec_digits(n as nat),
    decreases n,
{
    if n < 10 {
        push_digit(s, n);
        proof {
            assert(final(s)@ =~= old(s)@ + spec_dec_digits(n as nat));
        }
    } else {
        append_dec(s, n / 10);
        push_digit(s, n % 10);
        proof {
            assert(final(s)@ =~= old(s)@ + spec_dec_digits(n as nat));
        }
    }
}

/// Appends the last `width` decimal digits of `n`, zero padded.
fn append_padded(s: &mut String, n: u64, width: u64)
    ensures
        final(s)@ == old(s)@ + spec_padded_digits(n as nat, width as nat),
    decreases width,
{
    if width > 0 {
        append_padded(s, n / 10, width - 1);
        push_digit(s, n % 10);
    }
    proof {
        assert(final(s)@ =~= old(s)@ + spec_padded_digits(n as nat, width as nat));
    }
}

/// Renders `n` as decimal digits.
pub fn u64_to_dec_string(n: u64) -> (s: String)
    ensures
        s@ == spec_dec_digits(n as nat),
{
    let mut s = String::new();
    append_dec(&mut s, n);
    proof {
        assert(s@ =~= spec_dec_digits(n as nat));
    }
    s
}

/// Renders `n` as decimal digits with a minus sign when negative.
pub fn i64_to_dec_string(n: i64) -> (s: String)
    ensures
        s@ == spec_signed_dec_digits(n as int),
{
    if n >= 0 {
        let s = u64_to_dec_string(n as u64);
        s
    } else {
        proof {
            reveal_strlit("-");
        }
        let mut s = String::from_str("-");
        let mag: u64 = ((-(n + 1)) as u64) + 1;
        append_dec(&mut s, mag);
        proof {
            assert(s@ =~= spec_signed_dec_digits(n as int));
        }
        s
    }
}

/// Renders a fixed-point rate as `integer.fraction` with twelve fractional
/// digits.
pub fn fixed_to_dec_string(fp: u64) -> (s: String)
    ensures
        s@ == spec_fixed_dec_digits(fp),
{
    proof {
        reveal_strlit(".");
    }
    let mut s = u64_to_dec_string(fp / RATE_SCALE);
    s.append(".");
    append_padded(&mut s, fp % RATE_SCALE, 12);
    proof {
        assert(s@ =~= spec_fixed_dec_digits(fp));
    }
    s
}

} // verus!
