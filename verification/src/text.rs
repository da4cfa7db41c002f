//! Decimal rendering of fixed-point values for the display strings.
//!
//! A tick count is shown as a minimal signed decimal: the whole units,
//! and the fractional part only where it is nonzero, with trailing zeros
//! dropped — `5000` ticks read `0.5`, `20000` read `2`, `7` read `0.0007`.
#![allow(unused_imports)]
use vstd::prelude::*;
use vstd::string::StringExecFns;
use crate::{FP_ONE, PARAM_LIMIT};

verus! {

/// The character of one decimal digit.
pub open spec fn digit_char(d: int) -> char
    recommends
        0 <= d <= 9,
{
    if d == 0 {
        '0'
    } else if d == 1 {
        '1'
    } else if d == 2 {
        '2'
    } else if d == 3 {
        '3'
    } else if d == 4 {
        '4'
    } else if d == 5 {
        '5'
    } else if d == 6 {
        '6'
    } else if d == 7 {
        '7'
    } else if d == 8 {
        '8'
    } else {
        '9'
    }
}

/// The base-ten digit string of `n`.
pub open spec fn decimal_digits(n: int) -> Seq<char>
    recommends
        n >= 0,
    decreases n,
{
    if n < 10 {
        seq![digit_char(n)]
    } else {
        decimal_digits(n / 10) + seq![digit_char(n % 10)]
    }
}

/// The digits of `f` filled with leading zeros to `places` digit places.
pub open spec fn padded_digits(f: int, places: nat) -> Seq<char>
    recommends
        f >= 0,
    decreases places,
{
    if places == 0 {
        Seq::<char>::empty()
    } else {
        padded_digits(f / 10, (places - 1) as nat) + seq![digit_char(f % 10)]
    }
}

/// The digits shown after the point for a tick remainder of at most
/// `places` digit places: the padded digits with trailing zeros dropped.
pub open spec fn frac_digits(f: int, places: nat) -> Seq<char>
    recommends
        f > 0,
    decreases places,
{
    if places == 0 {
        Seq::<char>::empty()
    } else if f % 10 == 0 {
        frac_digits(f / 10, (places - 1) as nat)
    } else {
        padded_digits(f, places)
    }
}

/// The decimal rendering of `v` ticks: an optional minus sign, the whole
/// units, and — only for a nonzero tick remainder — a point and the
/// remainder's digits without trailing zeros.
pub open spec fn fixed_chars(v: int) -> Seq<char> {
    let a = if v >= 0 {
        v
    } else {
        -v
    };
    let whole = decimal_digits(a / (FP_ONE as int));
    let f = a % (FP_ONE as int);
    let body = if f == 0 {
        whole
    } else {
        whole + "."@ + frac_digits(f, 4)
    };
    if v < 0 {
        "-"@ + body
    } else {
        body
    }
}

/// One digit as text.
fn digit_str(d: u64) -> (r: &'static str)
    requires
        d <= 9,
    ensures
        r@ == seq![digit_char(d as int)],
{
    let s = if d == 0 {
        "0"
    } else if d == 1 {
        "1"
    } else if d == 2 {
        "2"
    } else if d == 3 {
        "3"
    } else if d == 4 {
        "4"
    } else if d == 5 {
        "5"
    } else if d == 6 {
        "6"
    } else if d == 7 {
        "7"
    } else if d == 8 {
        "8"
    } else {
        "9"
    };
    proof {
        reveal_strlit("0");
        reveal_strlit("1");
        reveal_strlit("2");
        reveal_strlit("3");
        reveal_strlit("4");
        reveal_strlit("5");
        reveal_strlit("6");
        reveal_strlit("7");
        reveal_strlit("8");
        reveal_strlit("9");
        assert(s@ =~= seq![digit_char(d as int)]);
    }
    s
}

/// The base-ten digits of `n`, appended to `out`.
fn push_digits(out: &mut String, n: u64)
    ensures
        final(out)@ == old(out)@ + decimal_digits(n as int),
    decreases n,
{
    if n >= 10 {
        push_digits(out, n / 10);
        let r = digit_str(n % 10);
        out.append(r);
        proof {
            assert(out@ =~= old(out)@ + decimal_digits(n as int));
        }
    } else {
        let r = digit_str(n);
        out.append(r);
        proof {
            assert(out@ =~= old(out)@ + decimal_digits(n as int));
        }
    }
}

/// The digits of `f` in `places` places, appended to `out`.
fn push_padded(out: &mut String, f: u64, places: u64)
    ensures
        final(out)@ == old(out)@ + padded_digits(f as int, places as nat),
    decreases places,
{
    if places > 0 {
        push_padded(out, f / 10, places - 1);
        let r = digit_str(f % 10);
        out.append(r);
        proof {
            assert(out@ =~= old(out)@ + padded_digits(f as int, places as nat));
        }
    } else {
        proof {
            assert(out@ =~= old(out)@ + padded_digits(f as int, places as nat));
        }
    }
}

/// The trimmed fractional digits of `f`, appended to `out`.
fn push_frac(out: &mut String, f: u64, places: u64)
    ensures
        final(out)@ == old(out)@ + frac_digits(f as int, places as nat),
    decreases places,
{
    if places == 0 {
        proof {
            assert(out@ =~= old(out)@ + frac_digits(f as int, places as nat));
        }
    } else if f % 10 == 0 {
        push_frac(out, f / 10, places - 1);
    } else {
        push_padded(out, f, places);
    }
}

/// The decimal rendering of `v` ticks, appended to `out`.
pub fn push_fixed(out: &mut String, v: i64)
    requires
        -PARAM_LIMIT <= v <= PARAM_LIMIT,
    ensures
        final(out)@ == old(out)@ + fixed_chars(v as int),
{
    let a: u64 = if v < 0 {
        out.append("-");
        (-v) as u64
    } else {
        v as u64
    };
    let whole: u64 = a / (FP_ONE as u64);
    let frac: u64 = a % (FP_ONE as u64);
    push_digits(out, whole);
    if frac != 0 {
        out.append(".");
        push_frac(out, frac, 4);
    }
    proof {
        assert(out@ =~= old(out)@ + fixed_chars(v as int));
    }
}

} // verus!
