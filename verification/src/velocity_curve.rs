//! Mapping the velocity of a touch onto the velocity of a strike.
//!
//! A felt hammer responds to touch so unevenly that a linear map crowds all soft
//! playing into a narrow sliver near silence. Raising the velocity to a power
//! evens it out; this module keeps both numbers where that power is defined.
use crate::binary32::Binary32;
use crate::math;
use crate::string;
use vstd::prelude::*;

verus! {

/// The exponent a new engine uses, 1.8.
pub const DEFAULT_VELOCITY_CURVE_EXPONENT_BITS: u32 = 0x3fe6_6666;

/// The smallest exponent, 0.25.
pub const MIN_VELOCITY_CURVE_EXPONENT_BITS: u32 = 0x3e80_0000;

/// The largest exponent, 6.
pub const MAX_VELOCITY_CURVE_EXPONENT_BITS: u32 = 0x40c0_0000;

/// An exponent confined to the curves that are curves; a NaN goes to the low
/// bound.
pub open spec fn curved(exponent: Binary32) -> Binary32 {
    math::bounded(
        exponent,
        Binary32::from_bits(MIN_VELOCITY_CURVE_EXPONENT_BITS),
        Binary32::from_bits(MAX_VELOCITY_CURVE_EXPONENT_BITS),
    )
}

/// Clamps an exponent to the curves that are curves.
pub fn clamp_exponent(exponent: Binary32) -> (clamped: Binary32)
    ensures
        clamped == curved(exponent),
        clamped.within(
            Binary32::from_bits(MIN_VELOCITY_CURVE_EXPONENT_BITS),
            Binary32::from_bits(MAX_VELOCITY_CURVE_EXPONENT_BITS),
        ),
{
    math::clamp_or_low(
        exponent,
        Binary32::from_bits(MIN_VELOCITY_CURVE_EXPONENT_BITS),
        Binary32::from_bits(MAX_VELOCITY_CURVE_EXPONENT_BITS),
    )
}

/// `warped` is `velocity` raised to `exponent` by `power`: with the base within
/// `[0, 1]` and the exponent positive, and the outcome kept within `[0, 1]`.
pub open spec fn is_warped<P: Fn(Binary32, Binary32) -> Binary32>(
    velocity: Binary32,
    exponent: Binary32,
    power: P,
    warped: Binary32,
) -> bool {
    exists|raised: Binary32| #[trigger]
        power.ensures((string::normalised(velocity), curved(exponent)), raised) && warped
            == string::normalised(raised)
}

/// Warps `velocity` through `exponent`. Whatever both are, the power is asked for
/// a base and an exponent it is defined for, and what comes out is a velocity.
pub fn warp_velocity<P: Fn(Binary32, Binary32) -> Binary32>(
    velocity: Binary32,
    exponent: Binary32,
    power: &P,
) -> (warped: Binary32)
    requires
        forall|base: Binary32, exponent: Binary32| power.requires((base, exponent)),
    ensures
        is_warped(velocity, exponent, *power, warped),
        string::is_normalised(warped),
{
    let raised = power(string::normalise(velocity), clamp_exponent(exponent));
    assert(power.ensures((string::normalised(velocity), curved(exponent)), raised));
    string::normalise(raised)
}

} // verus!
