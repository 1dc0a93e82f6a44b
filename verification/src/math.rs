//! Keeping parameters inside the range a recursive filter can survive.
use crate::binary32::Binary32;
use vstd::prelude::*;

verus! {

/// Magnitudes below this (1e-25) are treated as silence.
///
/// A decaying tail eventually reaches denormal numbers, which cost tens of
/// cycles each on common processors.
pub const DENORMAL_FLOOR_BITS: u32 = 0x15f7_9688;

/// `value` confined to `[low, high]`, with a NaN taken to `low`.
pub open spec fn bounded(value: Binary32, low: Binary32, high: Binary32) -> Binary32 {
    if value.nan() || value.below(low) {
        low
    } else if high.below(value) {
        high
    } else {
        value
    }
}

/// A value with its inaudible magnitudes replaced by zero.
pub open spec fn flushed(value: Binary32) -> Binary32 {
    if value.magnitude() < DENORMAL_FLOOR_BITS {
        Binary32::from_bits(0)
    } else {
        value
    }
}

/// Clamps `value` into `[low, high]`, mapping a NaN to `low`.
///
/// An ordinary clamp hands a NaN on, and a NaN inside a feedback loop stays
/// there forever. Every parameter that reaches one goes through this instead.
pub fn clamp_or_low(value: Binary32, low: Binary32, high: Binary32) -> (result: Binary32)
    ensures
        result == bounded(value, low, high),
        low.at_most(high) ==> result.within(low, high),
{
    if value.is_nan() || value.lt(low) {
        low
    } else if high.lt(value) {
        high
    } else {
        value
    }
}

/// Replaces denormal and near-silent values with exact zero.
pub fn flush_denormal(value: Binary32) -> (result: Binary32)
    ensures
        result == flushed(value),
{
    if value.abs().bits < DENORMAL_FLOOR_BITS {
        Binary32::from_bits(0)
    } else {
        value
    }
}

/// Clamping twice is clamping once, and what is already in range stays.
pub proof fn clamping_settles(value: Binary32, low: Binary32, high: Binary32)
    requires
        low.at_most(high),
    ensures
        bounded(bounded(value, low, high), low, high) == bounded(value, low, high),
        value.within(low, high) ==> bounded(value, low, high) == value,
{
}

/// Flushing compares magnitudes as numbers: exactly the values strictly
/// between the floor and its negative become zero, and a NaN is kept.
pub proof fn flushing_is_numeric(value: Binary32)
    ensures
        Binary32::from_bits(value.magnitude() as u32).below(
            Binary32::from_bits(DENORMAL_FLOOR_BITS),
        ) <==> value.magnitude() < DENORMAL_FLOOR_BITS,
        value.nan() ==> flushed(value) == value,
        flushed(flushed(value)) == flushed(value),
{
}

} // verus!
