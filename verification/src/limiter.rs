//! The output mix bus's headroom safety net.
//!
//! Every ringing voice adds to one sum, and a full chord can take that sum past
//! full scale. The limiter lets everything below a threshold through untouched
//! and compresses only what lies above it; this module decides which it is.
use crate::binary32::{Binary32, ONE_BITS};
use crate::math;
use crate::string;
use vstd::prelude::*;

verus! {

/// Magnitude below which the limiter leaves a sample untouched, 0.9.
pub const OUTPUT_LIMITER_THRESHOLD_BITS: u32 = 0x3f66_6666;

/// The highest threshold, 0.999: some headroom always remains to compress into.
pub const MAX_THRESHOLD_BITS: u32 = 0x3f7f_be77;

/// What the limiter does with one sample.
#[derive(Debug, Clone, Copy, PartialEq, Eq, Structural)]
pub enum Limit {
    /// Not a finite number: silence.
    Silence,
    /// Quiet enough: as it is.
    Pass,
    /// Above the threshold by some excess, which is compressed into what is left
    /// up to full scale.
    Compress {
        /// The threshold.
        threshold: Binary32,
        /// Whether the sample is below zero.
        negative: bool,
    },
}

/// What the limiter does with `sample` under `threshold`.
pub open spec fn limit_for(sample: Binary32, threshold: Binary32) -> Limit {
    let knee = math::bounded(
        threshold,
        Binary32::from_bits(0),
        Binary32::from_bits(MAX_THRESHOLD_BITS),
    );
    if !sample.finite() {
        Limit::Silence
    } else if Binary32::from_bits(sample.magnitude() as u32).at_most(knee) {
        Limit::Pass
    } else {
        Limit::Compress { threshold: knee, negative: sample.below(Binary32::from_bits(0)) }
    }
}

/// `limited` is what comes out of the limiter: `saturate` compresses a magnitude
/// above the threshold, what it gives is kept in `[0, 1]`, and the sign stays.
pub open spec fn is_limited<S: Fn(Binary32, Binary32) -> Binary32>(
    sample: Binary32,
    threshold: Binary32,
    saturate: S,
    limited: Binary32,
) -> bool {
    match limit_for(sample, threshold) {
        Limit::Silence => limited == Binary32::from_bits(0),
        Limit::Pass => limited == sample,
        Limit::Compress { threshold, negative } => exists|saturated: Binary32| #[trigger]
            saturate.ensures(
                (Binary32::from_bits(sample.magnitude() as u32), threshold),
                saturated,
            ) && limited == if negative {
                string::normalised(saturated).opposite()
            } else {
                string::normalised(saturated)
            },
    }
}

/// Decides what to do with `sample` under `threshold`, which is kept below full
/// scale.
pub fn limit(sample: Binary32, threshold: Binary32) -> (limit: Limit)
    ensures
        limit == limit_for(sample, threshold),
{
    if !sample.is_finite() {
        return Limit::Silence;
    }
    let knee = math::clamp_or_low(
        threshold,
        Binary32::from_bits(0),
        Binary32::from_bits(MAX_THRESHOLD_BITS),
    );
    if sample.abs().le(knee) {
        return Limit::Pass;
    }
    Limit::Compress { threshold: knee, negative: sample.lt(Binary32::from_bits(0)) }
}

/// Softly caps the magnitude of `sample` to one, transparent below `threshold`. What
/// is not a finite number becomes silence.
pub fn soft_limit<S: Fn(Binary32, Binary32) -> Binary32>(
    sample: Binary32,
    threshold: Binary32,
    saturate: &S,
) -> (limited: Binary32)
    requires
        forall|magnitude: Binary32, threshold: Binary32| saturate.requires((magnitude, threshold)),
    ensures
        is_limited(sample, threshold, *saturate, limited),
        limited.finite(),
        limited.magnitude() <= ONE_BITS,
{
    match limit(sample, threshold) {
        Limit::Silence => Binary32::from_bits(0),
        Limit::Pass => sample,
        Limit::Compress { threshold, negative } => {
            let magnitude = sample.abs();
            let compressed = saturate(magnitude, threshold);
            assert(magnitude == Binary32::from_bits(sample.magnitude() as u32));
            let saturated = string::normalise(compressed);
            if negative {
                saturated.negated()
            } else {
                saturated
            }
        },
    }
}

/// Nothing leaves the limiter beyond full scale, however loud what enters it and
/// however it is compressed: the result is a number of magnitude at most one.
pub proof fn full_scale_is_never_exceeded<S: Fn(Binary32, Binary32) -> Binary32>(
    sample: Binary32,
    threshold: Binary32,
    saturate: S,
    limited: Binary32,
)
    requires
        is_limited(sample, threshold, saturate, limited),
    ensures
        limited.finite(),
        limited.magnitude() <= ONE_BITS,
{
}

/// The limiter treats both signs alike: what it does with a sample it does with the
/// sample's opposite, with the sign turned round.
pub proof fn limiting_is_symmetric(sample: Binary32, threshold: Binary32)
    requires
        sample.magnitude() > 0,
    ensures
        limit_for(sample.opposite(), threshold) == match limit_for(sample, threshold) {
            Limit::Compress { threshold, negative } => Limit::Compress {
                threshold,
                negative: !negative,
            },
            other => other,
        },
{
}

} // verus!
