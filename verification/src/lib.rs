//! An evolutionary search for closed-form periodic approximations of a
//! sampled waveform.
//!
//! A population of candidate solutions, each a weighted sum of periodic
//! basis functions, is evolved one generation at a time against a fixed
//! target of `SAMPLE_COUNT` samples.  All values are carried in signed
//! fixed-point arithmetic: one real unit is `FP_ONE` ticks, so `5000`
//! stands for one half.
#![allow(unused_imports)]
use vstd::prelude::*;

pub mod rng;
pub mod text;
pub mod wave;
pub mod agent;
pub mod trainer;

verus! {

/// Fixed-point ticks per real unit: values are reals scaled by this factor.
pub const FP_ONE: i64 = 10_000;

/// The half turn of the periodic basis functions, in ticks.
pub const PI_FP: i64 = 31_416;

/// A full turn in ticks, the period of the sine basis function.
pub const TWO_PI_FP: i64 = 62_832;

/// Number of samples in the target waveform and in every evaluation sweep.
pub const SAMPLE_COUNT: usize = 512;

/// Number of candidate solutions the trainer keeps alive.
pub const POP_SIZE: usize = 50;

/// Size of the elite slice: the selection fraction (a fifth) of the
/// population, kept unchanged each generation and used as the parent pool.
pub const SELECTION_TOP: usize = 10;

/// How many basis functions a freshly seeded candidate starts with.
pub const STARTING_FUNCTIONS: usize = 4;

/// Upper bound on the length of a candidate's basis list.
pub const MAX_FUNCTIONS: usize = 12;

/// Largest magnitude, in ticks, that a scale or translation may take on.
pub const PARAM_LIMIT: i64 = 1_000_000_000;

/// Largest magnitude, in ticks, accepted for a target sample.
pub const TARGET_LIMIT: i64 = 1_000_000_000;

/// Largest magnitude a candidate evaluation can reach: every term is
/// bounded by `PARAM_LIMIT` and at most `MAX_FUNCTIONS` terms are summed.
pub const EVAL_LIMIT: i64 = 12 * 1_000_000_000;

/// Mutation drift strength in ticks: one tenth of a unit of standard
/// deviation for the parameter noise.
pub const NOISE_STEP: i64 = 1_000;

/// Chances are drawn in tenths; this is the common denominator.
pub const CHANCE_DENOM: u64 = 10;

/// Tenths of probability that mutation appends a basis function.
pub const ADDITION_TENTHS: u64 = 1;

/// Tenths of probability that mutation removes a basis function.
pub const SUBTRACTION_TENTHS: u64 = 1;

/// Tenths of probability that one parameter of one basis function drifts.
pub const DRIFT_TENTHS: u64 = 4;

/// The error a trainer construction reports.
#[derive(Clone, Copy, Debug, PartialEq, Eq, Structural)]
pub enum TrainError {
    /// The target waveform did not hold exactly `SAMPLE_COUNT` samples.
    LengthMismatch,
}

} // verus!
