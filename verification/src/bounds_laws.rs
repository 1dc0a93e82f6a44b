//! What it is to keep a number between two others.
use crate::binary32::Binary32;
use crate::math;
use crate::string;
use vstd::prelude::*;

verus! {

/// `kept` is `value` where that lies between `low` and `high`, the nearer of the two
/// where it lies beyond one of them, and `low` where `value` is no number. The two are
/// given by their bits, and neither is negative.
pub open spec fn lands(value: Binary32, low: u32, high: u32, kept: Binary32) -> bool {
    &&& value.nan() ==> kept.bits == low
    &&& !value.nan() && value.rank() < low ==> kept.bits == low
    &&& !value.nan() && low <= value.rank() <= high ==> kept == value
    &&& !value.nan() && value.rank() > high ==> kept.bits == high
}

/// Keeping a number between two others takes each number where it belongs, and leaves
/// alone what is there already.
pub proof fn clamps_take_each_number_where_it_belongs(
    value: Binary32,
    low: u32,
    high: u32,
    kept: Binary32,
)
    requires
        low <= high <= 0x7f80_0000,
        call_ensures(
            math::clamp_or_low,
            (value, Binary32 { bits: low }, Binary32 { bits: high }),
            kept,
        ),
    ensures
        lands(value, low, high, kept),
{
}

/// Clamping keeps the order of numbers.
pub proof fn clamps_keep_order(
    smaller: Binary32,
    larger: Binary32,
    low: Binary32,
    high: Binary32,
    kept: Binary32,
    other: Binary32,
)
    requires
        low.at_most(high),
        smaller.at_most(larger),
        call_ensures(math::clamp_or_low, (smaller, low, high), kept),
        call_ensures(math::clamp_or_low, (larger, low, high), other),
    ensures
        kept.at_most(other),
        low.at_most(kept),
        other.at_most(high),
        low.at_most(smaller) && larger.at_most(high) ==> kept == smaller && other == larger,
{
}

/// Normalising keeps a number between zero and one.
pub proof fn normalising_keeps_between_zero_and_one(value: Binary32, kept: Binary32)
    requires
        call_ensures(string::normalise, (value,), kept),
    ensures
        lands(value, 0, 0x3f80_0000, kept),
{
}

/// Flushing takes to zero what is smaller than the floor, on either side of it, and
/// leaves everything else alone.
pub proof fn flushing_takes_only_the_inaudible(value: Binary32, flushed: Binary32)
    requires
        call_ensures(math::flush_denormal, (value,), flushed),
    ensures
        value.magnitude() < 0x15f7_9688 ==> flushed.bits == 0,
        value.magnitude() >= 0x15f7_9688 ==> flushed == value,
{
}

} // verus!
