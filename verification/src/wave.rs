//! The basis-function kinds and their fixed-point evaluation rules.
//!
//! Both rules work in ticks (`FP_ONE` ticks per real unit):
//! - the sine kind evaluates `scale * sin(x + translation)`, with the sine
//!   taken from a rational half-wave approximation;
//! - the sawtooth kind evaluates `scale * frac(x + translation)`, where
//!   `frac` keeps the fractional part in `[0, 1)` whatever the sign of its
//!   argument.
#![allow(unused_imports)]
use vstd::prelude::*;
use vstd::arithmetic::div_mod::{
    lemma_div_by_multiple, lemma_div_is_ordered, lemma_div_pos_is_pos, lemma_mod_multiples_vanish,
};
use vstd::string::StringExecFns;
use crate::{FP_ONE, PI_FP, TWO_PI_FP, PARAM_LIMIT};

verus! {

/// Largest argument magnitude, in ticks, the evaluation rules accept:
/// a domain point of at most one unit shifted by a translation of at
/// most `PARAM_LIMIT` ticks.
pub const ARG_LIMIT: i64 = 1_100_000_000;

/// A whole number of periods beyond `ARG_LIMIT`, used to lift a sine
/// argument into nonnegative range before reduction.
pub const SINE_WRAP: i64 = 62_832 * 20_000;

/// A whole number of sawtooth periods beyond `ARG_LIMIT`, likewise.
pub const SAW_WRAP: i64 = 10_000 * 200_000;

/// The nonnegative remainder of `a` modulo `m`.
pub open spec fn emod(a: int, m: int) -> int
    recommends
        m > 0,
{
    a % m
}

/// Division toward zero: the rounding the engine uses to rescale products.
pub open spec fn tdiv(a: int, d: int) -> int
    recommends
        d > 0,
{
    if a >= 0 {
        a / d
    } else {
        -((-a) / d)
    }
}

/// The magnitude of `a`.
pub open spec fn mag(a: int) -> int {
    if a >= 0 {
        a
    } else {
        -a
    }
}

/// One half-wave of the fixed-point sine: the rational approximation
/// `16 u (p - u) / (5 p^2 - 4 u (p - u))` of `sin(u)` on `[0, p]`, where
/// `p` is the half turn, scaled to ticks.
pub open spec fn half_wave(u: int) -> int
    recommends
        0 <= u <= PI_FP as int,
{
    (16 * u * (PI_FP as int - u) * FP_ONE as int) / (
    5 * PI_FP as int * PI_FP as int - 4 * u * (PI_FP as int - u))
}

/// The fixed-point sine of `x` ticks, in `[-FP_ONE, FP_ONE]`: the argument
/// is reduced to one period, and the second half-wave is the mirrored
/// first one.
pub open spec fn sine_units(x: int) -> int {
    let m = emod(x, TWO_PI_FP as int);
    if m <= PI_FP as int {
        half_wave(m)
    } else {
        -half_wave(m - PI_FP as int)
    }
}

/// The fixed-point fractional part of `x` ticks, in `[0, FP_ONE)`.
pub open spec fn saw_units(x: int) -> int {
    emod(x, FP_ONE as int)
}

/// The unit-amplitude value of a kind at `x` ticks.
pub open spec fn unit_value(kind: WaveFunction, x: int) -> int {
    match kind {
        WaveFunction::Sine => sine_units(x),
        WaveFunction::SawTooth => saw_units(x),
    }
}

/// The value of a kind at `x` ticks under the given scale and translation:
/// the unit value of the shifted argument, rescaled by `scale`.
pub open spec fn wave_value(kind: WaveFunction, x: int, scale: int, translation: int) -> int {
    tdiv(scale * unit_value(kind, x + translation), FP_ONE as int)
}

/// The half-wave approximation stays within one unit.
pub proof fn lemma_half_wave_range(u: int)
    requires
        0 <= u <= PI_FP as int,
    ensures
        0 <= half_wave(u) <= FP_ONE as int,
{
    let num = 16 * u * (PI_FP as int - u) * FP_ONE as int;
    let den = 5 * PI_FP as int * PI_FP as int - 4 * u * (PI_FP as int - u);
    assert((PI_FP as int - 2 * u) * (PI_FP as int - 2 * u) >= 0 && num >= 0 && den >= 4 * PI_FP
        as int * PI_FP as int && num <= den * FP_ONE as int && den * FP_ONE as int == FP_ONE as int
        * den) by (nonlinear_arith)
        requires
            0 <= u <= PI_FP as int,
            num == 16 * u * (PI_FP as int - u) * FP_ONE as int,
            den == 5 * PI_FP as int * PI_FP as int - 4 * u * (PI_FP as int - u),
    ;
    lemma_div_pos_is_pos(num, den);
    lemma_div_is_ordered(num, FP_ONE as int * den, den);
    lemma_div_by_multiple(FP_ONE as int, den);
    assert(half_wave(u) == num / den);
}

/// A rescaled product is no larger than the bound of its free factor:
/// if `mag(a) <= b * d`, then `mag(tdiv(a, d)) <= b`.
pub proof fn lemma_tdiv_bound(a: int, d: int, b: int)
    requires
        d > 0,
        b >= 0,
        mag(a) <= b * d,
    ensures
        mag(tdiv(a, d)) <= b,
{
    if a >= 0 {
        lemma_div_is_ordered(a, b * d, d);
        lemma_div_by_multiple(b, d);
        lemma_div_pos_is_pos(a, d);
    } else {
        lemma_div_is_ordered(-a, b * d, d);
        lemma_div_by_multiple(b, d);
        lemma_div_pos_is_pos(-a, d);
    }
}

/// The evaluation of one half-wave, in ticks.
fn half_wave_fp(u: i64) -> (r: i64)
    requires
        0 <= u <= PI_FP,
    ensures
        r == half_wave(u as int),
        0 <= r <= FP_ONE,
{
    proof {
        lemma_half_wave_range(u as int);
        assert(0 <= u as int * (PI_FP as int - u as int) && 4 * (u as int * (PI_FP as int - u
            as int)) <= PI_FP as int * PI_FP as int) by (nonlinear_arith)
            requires
                0 <= u as int <= PI_FP as int,
        ;
    }
    let p: i64 = u * (PI_FP - u);
    proof {
        assert(16 * (p as int) * (FP_ONE as int) == 16 * (u as int) * (PI_FP as int - u as int) * (
        FP_ONE as int) && 4 * (p as int) == 4 * (u as int) * (PI_FP as int - u as int))
            by (nonlinear_arith)
            requires
                p as int == u as int * (PI_FP as int - u as int),
        ;
    }
    let num: u64 = (16 * p * FP_ONE) as u64;
    let den: u64 = (5 * PI_FP * PI_FP - 4 * p) as u64;
    (num / den) as i64
}

/// The fixed-point sine of `x` ticks.
pub fn sine_fp(x: i64) -> (r: i64)
    requires
        -ARG_LIMIT <= x <= ARG_LIMIT,
    ensures
        r == sine_units(x as int),
        -FP_ONE <= r <= FP_ONE,
{
    let shifted: u64 = (x + SINE_WRAP) as u64;
    let m: u64 = shifted % (TWO_PI_FP as u64);
    proof {
        lemma_mod_multiples_vanish(20_000, x as int, TWO_PI_FP as int);
        assert(TWO_PI_FP as int * 20_000 + x as int == shifted as int);
        assert(m as int == emod(x as int, TWO_PI_FP as int));
    }
    let mi: i64 = m as i64;
    if mi <= PI_FP {
        half_wave_fp(mi)
    } else {
        -half_wave_fp(mi - PI_FP)
    }
}

/// The fixed-point fractional part of `x` ticks.
pub fn saw_fp(x: i64) -> (r: i64)
    requires
        -ARG_LIMIT <= x <= ARG_LIMIT,
    ensures
        r == saw_units(x as int),
        0 <= r < FP_ONE,
{
    let shifted: u64 = (x + SAW_WRAP) as u64;
    let m: u64 = shifted % (FP_ONE as u64);
    proof {
        lemma_mod_multiples_vanish(200_000, x as int, FP_ONE as int);
        assert(FP_ONE as int * 200_000 + x as int == shifted as int);
        assert(m as int == emod(x as int, FP_ONE as int));
    }
    m as i64
}

/// Division of `a` by `d` toward zero.
fn tdiv_fp(a: i64, d: i64) -> (r: i64)
    requires
        d > 0,
        -0x4000_0000_0000_0000 <= a <= 0x4000_0000_0000_0000,
    ensures
        r == tdiv(a as int, d as int),
{
    if a >= 0 {
        ((a as u64) / (d as u64)) as i64
    } else {
        proof {
            lemma_div_is_ordered(-(a as int), 0x4000_0000_0000_0000, d as int);
            lemma_div_is_ordered(0, -(a as int), d as int);
            assert(0x4000_0000_0000_0000int / (d as int) <= 0x4000_0000_0000_0000) by {
                lemma_div_is_ordered_weak(d as int);
            }
        }
        -(((-a) as u64 / (d as u64)) as i64)
    }
}

/// Dividing a bounded nonnegative number by a positive one does not
/// enlarge it.
proof fn lemma_div_is_ordered_weak(d: int)
    requires
        d > 0,
    ensures
        0x4000_0000_0000_0000int / d <= 0x4000_0000_0000_0000,
{
    vstd::arithmetic::div_mod::lemma_div_is_ordered_by_denominator(0x4000_0000_0000_0000, 1, d);
    assert(0x4000_0000_0000_0000int / 1 == 0x4000_0000_0000_0000);
}

/// The display form of one term: the scale, the kind's own pattern, and
/// the translation, as in `0.5000*sin(x + 0.2000)`.
pub open spec fn term_chars(kind: WaveFunction, scale: int, translation: int) -> Seq<char> {
    crate::text::fixed_chars(scale) + (match kind {
        WaveFunction::Sine => "*sin(x + "@,
        WaveFunction::SawTooth => "*frac(x + "@,
    }) + crate::text::fixed_chars(translation) + ")"@
}

/// A closed set of periodic basis-function kinds.
#[derive(Clone, Copy, Debug, PartialEq, Eq, Structural)]
pub enum WaveFunction {
    /// The sine primitive.
    Sine,
    /// The sawtooth primitive, built on the fractional part.
    SawTooth,
}

impl WaveFunction {
    /// The display name of the kind family.
    pub fn new(name: &str) -> (r: &'static str)
        ensures
            r@ == "Sine"@,
    {
        let _ = name;
        "Sine"
    }

    /// The value of this kind at `x` ticks under `scale` and
    /// `x_translation`, bounded by the scale's own magnitude.
    pub fn evaluate(&self, x: i64, scale: i64, x_translation: i64) -> (r: i64)
        requires
            -FP_ONE <= x <= FP_ONE,
            -PARAM_LIMIT <= scale <= PARAM_LIMIT,
            -PARAM_LIMIT <= x_translation <= PARAM_LIMIT,
        ensures
            r == wave_value(*self, x as int, scale as int, x_translation as int),
            -PARAM_LIMIT <= r <= PARAM_LIMIT,
    {
        let arg: i64 = x + x_translation;
        let unit: i64 = match self {
            WaveFunction::Sine => sine_fp(arg),
            WaveFunction::SawTooth => saw_fp(arg),
        };
        proof {
            assert(mag(scale as int * unit as int) <= PARAM_LIMIT as int * FP_ONE as int)
                by (nonlinear_arith)
                requires
                    -PARAM_LIMIT <= scale <= PARAM_LIMIT,
                    -(FP_ONE as int) <= unit as int <= FP_ONE as int,
            ;
        }
        let prod: i64 = scale * unit;
        let r = tdiv_fp(prod, FP_ONE);
        proof {
            lemma_tdiv_bound(prod as int, FP_ONE as int, PARAM_LIMIT as int);
        }
        r
    }

    /// The display string of one term of this kind.
    pub fn generate_string(&self, scale: i64, x_translation: i64) -> (r: String)
        requires
            -PARAM_LIMIT <= scale <= PARAM_LIMIT,
            -PARAM_LIMIT <= x_translation <= PARAM_LIMIT,
        ensures
            r@ == term_chars(*self, scale as int, x_translation as int),
    {
        let mut out = String::new();
        crate::text::push_fixed(&mut out, scale);
        match self {
            WaveFunction::Sine => out.append("*sin(x + "),
            WaveFunction::SawTooth => out.append("*frac(x + "),
        }
        crate::text::push_fixed(&mut out, x_translation);
        out.append(")");
        proof {
            assert(out@ =~= term_chars(*self, scale as int, x_translation as int));
        }
        out
    }
}

} // verus!
