//! How numbers compare, and what becomes of them in comparison, by their bits.
use crate::binary32;
use crate::binary32::Binary32;
use crate::noise::Xorshift32;
use crate::units::Hz;
use vstd::arithmetic::power2::pow2;
use vstd::prelude::*;

verus! {

/// The bits of no number.
pub open spec fn is_no_number(bits: u32) -> bool {
    bits % 0x8000_0000 > 0x7f80_0000
}

/// One number is below another by their bits where both are positive, by their bits the
/// other way round where both are negative, and by their signs where they differ in
/// sign, but for the two zeros. What is no number is below nothing, and nothing is
/// below it.
pub proof fn numbers_are_ordered_by_their_bits(
    one: Binary32,
    other: Binary32,
    below: bool,
    at_most: bool,
)
    requires
        call_ensures(Binary32::lt, (one, other), below),
        call_ensures(Binary32::le, (one, other), at_most),
    ensures
        is_no_number(one.bits) || is_no_number(other.bits) ==> !below && !at_most,
        !is_no_number(one.bits) && !is_no_number(other.bits) && one.bits < 0x8000_0000
            && other.bits < 0x8000_0000
            ==> below == (one.bits < other.bits) && at_most == (one.bits <= other.bits),
        !is_no_number(one.bits) && !is_no_number(other.bits) && one.bits >= 0x8000_0000
            && other.bits >= 0x8000_0000
            ==> below == (one.bits > other.bits) && at_most == (one.bits >= other.bits),
        !is_no_number(one.bits) && !is_no_number(other.bits) && one.bits >= 0x8000_0000
            && other.bits < 0x8000_0000
            ==> at_most && below == !(one.bits == 0x8000_0000 && other.bits == 0),
        !is_no_number(one.bits) && !is_no_number(other.bits) && one.bits < 0x8000_0000
            && other.bits >= 0x8000_0000
            ==> !below && at_most == (one.bits == 0 && other.bits == 0x8000_0000),
{
}

/// The size of a number is the number without its sign; the negative of a number
/// differs from it in the sign alone; and of two numbers the larger is the one that the
/// other is not above.
pub proof fn sizes_and_signs(
    one: Binary32,
    other: Binary32,
    size: Binary32,
    nan: bool,
    finite: bool,
    larger: Binary32,
    negative: Binary32,
    again: Binary32,
)
    requires
        call_ensures(Binary32::abs, (one,), size),
        call_ensures(Binary32::is_nan, (one,), nan),
        call_ensures(Binary32::is_finite, (one,), finite),
        call_ensures(Binary32::max, (one, other), larger),
        call_ensures(Binary32::negated, (one,), negative),
        call_ensures(Binary32::negated, (negative,), again),
    ensures
        size.bits == one.bits % 0x8000_0000,
        nan == is_no_number(one.bits),
        finite == (one.bits % 0x8000_0000 < 0x7f80_0000),
        nan ==> larger == other,
        !nan && one.below(other) ==> larger == other,
        !nan && !one.below(other) ==> larger == one,
        again == one,
        negative.bits % 0x8000_0000 == one.bits % 0x8000_0000,
        negative.bits != one.bits,
{
}

/// A whole number is found again in the number that stands for it, and halving a number
/// that can be halved exactly gives half of it.
pub proof fn whole_numbers_are_found_again(
    number: u32,
    value: Binary32,
    whole: usize,
    half: Binary32,
)
    requires
        number < 0x100_0000,
        call_ensures(Binary32::from_natural, (number,), value),
        call_ensures(Binary32::truncate, (value,), whole),
        call_ensures(Binary32::half, (value,), half),
    ensures
        whole == number,
        value.units() == number * pow2(149),
        value.units() % 2 == 0 ==> 2 * half.units() == value.units(),
{
    let unit = pow2(149) as int;
    vstd::arithmetic::power2::lemma_pow2_pos(149);
    binary32::order_is_numeric(Binary32 { bits: 0 }, value);
    assert((Binary32 { bits: 0 }).units() == 0);
    if number > 0 {
        assert(number * unit > 0) by (nonlinear_arith)
            requires
                number > 0,
                unit > 0,
        ;
        vstd::arithmetic::div_mod::lemma_div_multiples_vanish(number as int, unit);
    } else {
        assert(number * unit == 0) by (nonlinear_arith)
            requires
                number == 0,
        ;
    }
}

/// A clamp takes a number between its bounds: as it is where it lies there, and to the
/// nearer bound where it does not.
pub proof fn clamps_keep_numbers_between(
    value: Binary32,
    low: Binary32,
    high: Binary32,
    kept: Binary32,
)
    requires
        low.at_most(high),
        call_ensures(Binary32::clamp, (value, low, high), kept),
    ensures
        value.rank() < low.rank() && !value.nan() ==> kept == low,
        value.rank() > high.rank() && !value.nan() ==> kept == high,
        value.nan() || low.rank() <= value.rank() <= high.rank() ==> kept == value,
{
}

/// A draw of noise lies between minus one, which it may reach, and one, which it does
/// not.
pub proof fn noise_stays_in_scale(
    before: Xorshift32,
    after: Xorshift32,
    drawn: Binary32,
    number: u32,
    stepped: Xorshift32,
)
    requires
        exists|generator: &mut Xorshift32| #[trigger]
            call_ensures(Xorshift32::next_bipolar, (generator,), drawn)
                && *generator == before && *final(generator) == after,
        exists|generator: &mut Xorshift32| #[trigger]
            call_ensures(Xorshift32::next_u32, (generator,), number)
                && *generator == before && *final(generator) == stepped,
    ensures
        !is_no_number(drawn.bits),
        -0x3f80_0000 <= drawn.rank() < 0x3f80_0000,
        after == stepped,
{
}

/// Concert A is four hundred and forty.
pub proof fn concert_a_is_as_tuned(
    pitch: Hz,
)
    requires
        call_ensures(Hz::concert_a, (), pitch),
    ensures
        pitch.value().bits == 0x43dc_0000,
{
}

} // verus!
