//! The few quotients and differences of [`Binary32`] numbers that controller
//! messages and noise need, each rounded to the nearest value.
use crate::binary32::{lemma_size_step, size, Binary32, BINADE, ONE_BITS, SIGN_WEIGHT};
use vstd::arithmetic::power2::pow2;
use vstd::prelude::*;

verus! {

/// The distance between two numbers.
pub open spec fn distance(left: int, right: int) -> int {
    if left <= right {
        right - left
    } else {
        left - right
    }
}

/// `value` is the fraction `numerator / denominator` (in the units of
/// [`Binary32::units`]), rounded to nearest: no finite value lies closer, and
/// where another one lies as close, `value` is the one whose last bit is even.
pub open spec fn is_nearest(value: Binary32, numerator: int, denominator: int) -> bool {
    &&& value.finite()
    &&& forall|other: Binary32|
        #![trigger other.units()]
        other.finite() ==> {
            let own = distance(value.units() * denominator, numerator);
            let others = distance(other.units() * denominator, numerator);
            own < others || (own == others && (other.units() == value.units() || value.bits % 2
                == 0))
        }
}

/// The value nearest to a fraction that is not negative.
pub open spec fn nearest(numerator: int, denominator: int) -> Binary32 {
    choose|value: Binary32|
        value.bits < SIGN_WEIGHT && #[trigger] is_nearest(value, numerator, denominator)
}

/// No fraction has two nearest values.
pub proof fn lemma_nearest_is_unique(value: Binary32, numerator: int, denominator: int)
    requires
        denominator > 0,
        value.bits < SIGN_WEIGHT,
        is_nearest(value, numerator, denominator),
    ensures
        value == nearest(numerator, denominator),
{
    let other = nearest(numerator, denominator);
    crate::binary32::order_is_numeric(value, other);
    if value.bits < other.bits {
        lemma_not_both_nearest(value, other, numerator, denominator);
    } else if other.bits < value.bits {
        lemma_not_both_nearest(other, value, numerator, denominator);
    }
}

proof fn lemma_not_both_nearest(low: Binary32, high: Binary32, numerator: int, denominator: int)
    requires
        denominator > 0,
        low.bits < high.bits < SIGN_WEIGHT,
        is_nearest(low, numerator, denominator),
    ensures
        !is_nearest(high, numerator, denominator),
{
    let l = low.units();
    let h = high.units();
    crate::binary32::order_is_numeric(low, high);
    if is_nearest(high, numerator, denominator) {
        assert(distance(l * denominator, numerator) == distance(h * denominator, numerator));
        assert(low.bits % 2 == 0 && high.bits % 2 == 0);
        let middle = Binary32::from_bits((low.bits + 1) as u32);
        crate::binary32::order_is_numeric(low, middle);
        crate::binary32::order_is_numeric(middle, high);
        let m = middle.units();
        assert(l * denominator < m * denominator < h * denominator) by (nonlinear_arith)
            requires
                l < m < h,
                denominator > 0,
        ;
        assert(distance(l * denominator, numerator) <= distance(m * denominator, numerator));
    }
}

/// Values further apart than a step of the grid round in their own order.
pub proof fn rounding_is_monotone(
    low: Binary32,
    high: Binary32,
    low_numerator: int,
    high_numerator: int,
    denominator: int,
)
    requires
        denominator > 0,
        low_numerator < high_numerator,
        is_nearest(low, low_numerator, denominator),
        is_nearest(high, high_numerator, denominator),
    ensures
        low.units() <= high.units(),
        low.at_most(high),
{
    let l = low.units() * denominator;
    let h = high.units() * denominator;
    if low.units() > high.units() {
        assert(l > h) by (nonlinear_arith)
            requires
                low.units() > high.units(),
                denominator > 0,
                l == low.units() * denominator,
                h == high.units() * denominator,
        ;
        assert(distance(l, low_numerator) <= distance(h, low_numerator));
        assert(distance(h, high_numerator) <= distance(l, high_numerator));
        assert(false);
    }
    crate::binary32::order_is_numeric(high, low);
}

/// Half a step of the grid below and above is enough to be nearest.
proof fn lemma_nearest(value: Binary32, numerator: int, denominator: int)
    requires
        value.finite(),
        value.bits < SIGN_WEIGHT,
        value.bits > 0,
        denominator > 0,
        // Above: at most half of the step to the next value.
        2 * (numerator - value.units() * denominator) <= (size(value.bits + 1) - size(
            value.bits as int,
        )) * denominator,
        // Below: at most half of the step to the value before.
        2 * (value.units() * denominator - numerator) <= (size(value.bits as int) - size(
            value.bits - 1,
        )) * denominator,
        // On either half, the last bit is even.
        2 * (numerator - value.units() * denominator) == (size(value.bits + 1) - size(
            value.bits as int,
        )) * denominator ==> value.bits % 2 == 0,
        2 * (value.units() * denominator - numerator) == (size(value.bits as int) - size(
            value.bits - 1,
        )) * denominator ==> value.bits % 2 == 0,
    ensures
        is_nearest(value, numerator, denominator),
{
    let u = value.units();
    let m = value.bits as int;
    assert(u == size(m));
    assert forall|other: Binary32| #![trigger other.units()] other.finite() implies {
        let own = distance(value.units() * denominator, numerator);
        let others = distance(other.units() * denominator, numerator);
        own < others || (own == others && (other.units() == value.units() || value.bits % 2 == 0))
    } by {
        let o = other.units();
        crate::binary32::order_is_numeric(value, other);
        if o > u {
            assert(other.magnitude() >= m + 1);
            crate::binary32::lemma_size_order(m + 1, other.magnitude());
            let step = size(m + 1) - size(m);
            assert(o * denominator >= u * denominator + step * denominator) by (nonlinear_arith)
                requires
                    o >= u + step,
                    denominator > 0,
            ;
            lemma_size_step(m);
            assert(step * denominator > 0) by (nonlinear_arith)
                requires
                    step > 0,
                    denominator > 0,
            ;
        } else if o < u {
            if other.bits < SIGN_WEIGHT {
                crate::binary32::lemma_size_order(other.magnitude(), m - 1);
            } else {
                crate::binary32::lemma_size_order(0, other.magnitude());
                crate::binary32::lemma_size_order(0, m - 1);
            }
            let step = size(m) - size(m - 1);
            lemma_size_step(m - 1);
            assert(o * denominator + step * denominator <= u * denominator) by (nonlinear_arith)
                requires
                    o + step <= u,
                    denominator > 0,
            ;
            assert(step * denominator > 0) by (nonlinear_arith)
                requires
                    step > 0,
                    denominator > 0,
            ;
        }
    }
}

/// Zero is nearest to zero.
proof fn lemma_zero_is_nearest(denominator: int)
    requires
        denominator > 0,
    ensures
        is_nearest(Binary32::from_bits(0), 0, denominator),
{
    let value = Binary32::from_bits(0);
    assert(value.units() == 0);
    assert forall|other: Binary32| #![trigger other.units()] other.finite() implies {
        let own = distance(value.units() * denominator, 0);
        let others = distance(other.units() * denominator, 0);
        own < others || (own == others && (other.units() == value.units() || value.bits % 2 == 0))
    } by {
        assert(value.units() * denominator == 0) by (nonlinear_arith)
            requires
                value.units() == 0,
        ;
    }
}

/// The seven-bit data byte `data` as a fraction of its largest value: `data`
/// divided by 127.
pub fn seven_bit_fraction(data: u8) -> (value: Binary32)
    ensures
        value == nearest(data * pow2(149), 127),
        is_nearest(value, data * pow2(149), 127),
        value.bits < SIGN_WEIGHT,
        data > 0 ==> value.magnitude() >= 120 * BINADE,
        value.magnitude() < 129 * BINADE,
        data == 0 ==> value.bits == 0,
{
    if data == 0 {
        proof {
            lemma_zero_is_nearest(127);
            lemma_nearest_is_unique(Binary32::from_bits(0), 0, 127);
        }
        return Binary32::from_bits(0);
    }
    let floor: u64 = 127 * 0x80_0000;
    let mut scaled: u64 = data as u64;
    let mut shift: u32 = 0;
    proof {
        vstd::arithmetic::power2::lemma2_to64();
        assert(data * pow2(0) == data) by (nonlinear_arith)
            requires
                pow2(0) == 1,
        ;
    }
    while scaled < floor
        invariant
            0 < data,
            floor == 127 * 0x80_0000,
            0 < scaled < 2 * floor,
            scaled == data * pow2(shift as nat),
            shift <= 30,
            pow2(30) == 0x4000_0000,
            shift > 0 ==> data * pow2((shift - 1) as nat) < floor,
        decreases 2 * floor - scaled,
    {
        proof {
            vstd::arithmetic::power2::lemma_pow2_unfold((shift + 1) as nat);
            let p = pow2(shift as nat) as int;
            let d = data as int;
            assert(2 * (d * p) == d * (2 * p)) by (nonlinear_arith);
            if shift == 30 {
                assert(d * p >= p) by (nonlinear_arith)
                    requires
                        d >= 1,
                        p >= 0,
                ;
            }
        }
        scaled = scaled * 2;
        shift = shift + 1;
    }
    proof {
        lemma_shift_at_least_22(data, shift as nat);
    }
    let down: u64 = scaled / 127;
    let rest: u64 = scaled % 127;
    let significand: u32 = if 2 * rest > 127 {
        (down + 1) as u32
    } else {
        down as u32
    };
    let exponent: u32 = 150 - shift;
    let value = Binary32::from_bits(exponent * BINADE + (significand - BINADE));
    proof {
        lemma_rounded(data, shift as nat, value);
    }
    value
}

/// A whole number divided by 127, rounded to the nearest whole number.
spec fn rounded_quotient(number: int) -> int {
    if 2 * (number % 127) > 127 {
        number / 127 + 1
    } else {
        number / 127
    }
}

/// Doubling a data byte until it fills a significand, and dividing that by 127,
/// gives the nearest value.
proof fn lemma_rounded(data: u8, shift: nat, value: Binary32)
    requires
        data > 0,
        shift <= 30,
        127 * BINADE <= data * pow2(shift) < 2 * (127 * BINADE),
        value.bits == (150 - shift) * BINADE + (rounded_quotient(data * pow2(shift)) - BINADE),
    ensures
        shift >= 22,
        value == nearest(data * pow2(149), 127),
        is_nearest(value, data * pow2(149), 127),
        120 * BINADE <= value.bits < 129 * BINADE,
        distance(value.units() * 127, data * pow2(149)) <= 63 * pow2(127),
{
    lemma_shift_at_least_22(data, shift);
    vstd::arithmetic::power2::lemma2_to64();
    if shift == 22 {
        assert(data * pow2(22) <= 255 * 0x40_0000) by (nonlinear_arith)
            requires
                data <= 255,
                pow2(22) == 0x40_0000,
        ;
    }
    let m = value.bits as int;
    let e = 150 - shift;
    let n = data * pow2(shift);
    let s = rounded_quotient(n);
    let p = pow2((e - 1) as nat) as int;
    lemma_significand(m, e, s);
    vstd::arithmetic::power2::lemma_pow2_adds(shift, (e - 1) as nat);
    assert(data * pow2(149) == n * p) by (nonlinear_arith)
        requires
            n == data * pow2(shift),
            pow2(149) == pow2(shift) * pow2((e - 1) as nat),
            p == pow2((e - 1) as nat),
    ;
    vstd::arithmetic::power2::lemma_pow2_pos((e - 1) as nat);
    let error = n - 127 * s;
    assert(-63 <= error <= 63);
    assert((s * p) * 127 == (127 * s) * p) by (nonlinear_arith);
    assert(n * p - (127 * s) * p == error * p) by (nonlinear_arith)
        requires
            error == n - 127 * s,
    ;
    assert(error * p <= 63 * p) by (nonlinear_arith)
        requires
            error <= 63,
            p > 0,
    ;
    assert(error * p >= -63 * p) by (nonlinear_arith)
        requires
            error >= -63,
            p > 0,
    ;
    assert(error >= 0 ==> error * p >= 0) by (nonlinear_arith)
        requires
            p > 0,
    ;
    if e - 1 < 127 {
        vstd::arithmetic::power2::lemma_pow2_strictly_increases((e - 1) as nat, 127);
    }
    if s == BINADE {
        assert(error >= 0);
        lemma_size_step(m - 1);
        let step = size(m) - size(m - 1);
        assert(step * 127 > 0);
    }
    lemma_nearest(value, data * pow2(149), 127);
    lemma_nearest_is_unique(value, data * pow2(149), 127);
}

/// Some number of doublings makes a data byte fill a significand.
proof fn lemma_find_shift(data: u8, shift: nat) -> (found: nat)
    requires
        data > 0,
        shift <= 30,
        data * pow2(shift) < 2 * (127 * BINADE),
    ensures
        found <= 30,
        127 * BINADE <= data * pow2(found) < 2 * (127 * BINADE),
    decreases 30 - shift,
{
    if data * pow2(shift) >= 127 * BINADE {
        shift
    } else {
        let p = pow2(shift) as int;
        let d = data as int;
        if shift == 30 {
            vstd::arithmetic::power2::lemma2_to64();
            assert(d * p >= p) by (nonlinear_arith)
                requires
                    d >= 1,
                    p >= 0,
            ;
            shift
        } else {
            vstd::arithmetic::power2::lemma_pow2_unfold(shift + 1);
            assert(2 * (d * p) == d * (2 * p)) by (nonlinear_arith);
            lemma_find_shift(data, shift + 1)
        }
    }
}

/// The fraction of a data byte is nearest, and close.
proof fn lemma_fraction(data: u8)
    ensures
        ({
            let value = nearest(data * pow2(149), 127);
            &&& is_nearest(value, data * pow2(149), 127)
            &&& value.bits < 129 * BINADE
            &&& distance(value.units() * 127, data * pow2(149)) <= 63 * pow2(127)
        }),
{
    if data == 0 {
        lemma_zero_is_nearest(127);
        lemma_nearest_is_unique(Binary32::from_bits(0), 0, 127);
        assert(Binary32::from_bits(0).units() == 0);
        assert(data * pow2(149) == 0) by (nonlinear_arith)
            requires
                data == 0,
        ;
    } else {
        vstd::arithmetic::power2::lemma2_to64();
        assert(data * pow2(0) == data) by (nonlinear_arith)
            requires
                pow2(0) == 1,
        ;
        let shift = lemma_find_shift(data, 0);
        let n = data * pow2(shift);
        lemma_shift_at_least_22(data, shift);
        let bits = (150 - shift) * BINADE + (rounded_quotient(n) - BINADE);
        assert(BINADE <= rounded_quotient(n) <= 2 * BINADE);
        lemma_rounded(data, shift, Binary32::from_bits(bits as u32));
    }
}

/// Fractions of data bytes are in the order of the bytes.
pub proof fn fractions_are_ordered(low: u8, high: u8)
    ensures
        low < high ==> nearest(low * pow2(149), 127).below(nearest(high * pow2(149), 127)),
        low == high ==> nearest(low * pow2(149), 127).at_most(nearest(high * pow2(149), 127)),
{
    lemma_fraction(low);
    lemma_fraction(high);
    let l = nearest(low * pow2(149), 127);
    let h = nearest(high * pow2(149), 127);
    if low < high {
        let unit = pow2(149) as int;
        let small = pow2(127) as int;
        vstd::arithmetic::power2::lemma2_to64();
        vstd::arithmetic::power2::lemma_pow2_adds(22, 127);
        vstd::arithmetic::power2::lemma_pow2_pos(127);
        assert(high * unit - low * unit >= unit) by (nonlinear_arith)
            requires
                low < high,
                unit >= 0,
        ;
        assert(unit == 0x40_0000 * small);
        crate::binary32::order_is_numeric(l, h);
    }
}

/// The smallest data byte stands for zero, and 127 for one.
pub proof fn fraction_extremes()
    ensures
        nearest(0u8 * pow2(149), 127) == Binary32::from_bits(0),
        nearest(127u8 * pow2(149), 127) == Binary32::from_bits(ONE_BITS),
{
    lemma_zero_is_nearest(127);
    lemma_nearest_is_unique(Binary32::from_bits(0), 0, 127);
    let one = Binary32::from_bits(ONE_BITS);
    lemma_one();
    lemma_size_step(one.bits as int);
    lemma_size_step(one.bits - 1);
    lemma_nearest(one, 127u8 * pow2(149), 127);
    lemma_nearest_is_unique(one, 127u8 * pow2(149), 127);
}

/// What stands for a data byte is the value nearest to its fraction of 127.
pub proof fn fraction_is_nearest(data: u8)
    ensures
        is_nearest(nearest(data * pow2(149), 127), data * pow2(149), 127),
        nearest(data * pow2(149), 127).bits < SIGN_WEIGHT,
{
    lemma_fraction(data);
}

/// One as a number of units.
pub proof fn one_in_units()
    ensures
        Binary32::from_bits(ONE_BITS).units() == pow2(149),
        Binary32::from_bits(0).units() == 0,
{
    lemma_one();
}

/// Zero and one are the values nearest to themselves.
pub proof fn one_is_nearest()
    ensures
        nearest(0, 1) == Binary32::from_bits(0),
        nearest(pow2(149) as int, 1) == Binary32::from_bits(ONE_BITS),
{
    lemma_one();
    lemma_zero_is_nearest(1);
    lemma_nearest_is_unique(Binary32::from_bits(0), 0, 1);
    lemma_exact_is_nearest(Binary32::from_bits(ONE_BITS));
    lemma_nearest_is_unique(Binary32::from_bits(ONE_BITS), pow2(149) as int, 1);
}

/// A data byte needs at least 22 doublings to fill a significand.
proof fn lemma_shift_at_least_22(data: u8, shift: nat)
    requires
        data * pow2(shift) >= 127 * 0x80_0000,
    ensures
        shift >= 22,
{
    if shift < 22 {
        vstd::arithmetic::power2::lemma2_to64();
        if shift < 21 {
            vstd::arithmetic::power2::lemma_pow2_strictly_increases(shift, 21);
        }
        let p = pow2(shift) as int;
        assert(data * p <= 255 * 0x20_0000) by (nonlinear_arith)
            requires
                0 <= data <= 255,
                0 <= p <= 0x20_0000,
        ;
    }
}

/// The size of a magnitude built from exponent and significand, the steps around
/// it, and the last bit. A significand of two binades is the next power of two.
proof fn lemma_significand(magnitude: int, exponent: int, significand: int)
    requires
        2 <= exponent <= 200,
        BINADE <= significand <= 2 * BINADE,
        magnitude == exponent * BINADE + (significand - BINADE),
    ensures
        size(magnitude) == significand * pow2((exponent - 1) as nat),
        significand < 2 * BINADE ==> size(magnitude + 1) - size(magnitude) == pow2(
            (exponent - 1) as nat,
        ),
        significand == 2 * BINADE ==> size(magnitude + 1) - size(magnitude) == 2 * pow2(
            (exponent - 1) as nat,
        ),
        significand > BINADE ==> size(magnitude) - size(magnitude - 1) == pow2(
            (exponent - 1) as nat,
        ),
        magnitude % 2 == significand % 2,
{
    let p = pow2((exponent - 1) as nat) as int;
    vstd::arithmetic::power2::lemma_pow2_unfold(exponent as nat);
    lemma_size_step(magnitude);
    if significand < 2 * BINADE {
        assert(magnitude / (BINADE as int) == exponent);
        assert(magnitude % (BINADE as int) == significand - BINADE);
    } else {
        assert(magnitude / (BINADE as int) == exponent + 1);
        assert(magnitude % (BINADE as int) == 0);
        assert(BINADE * (2 * p) == (2 * BINADE) * p) by (nonlinear_arith);
    }
    if significand > BINADE {
        lemma_size_step(magnitude - 1);
        assert((magnitude - 1) / (BINADE as int) == exponent);
    }
}

/// A number rounded to the nearest value, and the whole number that value is.
struct Scaled {
    /// The value, counted in units of some power of two.
    value: Binary32,
    /// How many of those units it is.
    whole: u64,
}

/// `number` times two to the power of `scale`, in the units of
/// [`Binary32::units`], rounded to nearest.
fn from_scaled(number: u32, scale: u32) -> (scaled: Scaled)
    requires
        64 <= scale <= 128,
    ensures
        scaled.value == nearest(number * pow2(scale as nat), 1),
        is_nearest(scaled.value, number * pow2(scale as nat), 1),
        scaled.value.bits < SIGN_WEIGHT,
        scaled.value.units() == scaled.whole * pow2(scale as nat),
        scaled.whole <= 0x1_0000_0000,
{
    let ghost unit = pow2(scale as nat) as int;
    if number == 0 {
        proof {
            lemma_zero_is_nearest(1);
            assert(number * unit == 0) by (nonlinear_arith)
                requires
                    number == 0,
            ;
            lemma_nearest_is_unique(Binary32::from_bits(0), 0, 1);
            assert(0 * unit == 0) by (nonlinear_arith);
        }
        return Scaled { value: Binary32::from_bits(0), whole: 0 };
    }
    let wide: u64 = number as u64;
    if number < BINADE {
        let mut significand: u32 = number;
        let mut exponent: u32 = scale + 1;
        proof {
            vstd::arithmetic::power2::lemma2_to64();
            assert(number * pow2(0) == number) by (nonlinear_arith)
                requires
                    pow2(0) == 1,
            ;
        }
        while significand < BINADE
            invariant
                0 < number < BINADE,
                0 < significand < 2 * BINADE,
                64 <= scale <= 128,
                scale - 22 <= exponent <= scale + 1,
                significand == number * pow2((scale + 1 - exponent) as nat),
                pow2(23) == BINADE,
            decreases 2 * BINADE - significand,
        {
            proof {
                vstd::arithmetic::power2::lemma_pow2_unfold((scale + 2 - exponent) as nat);
                let p = pow2((scale + 1 - exponent) as nat) as int;
                let n = number as int;
                assert(2 * (n * p) == n * (2 * p)) by (nonlinear_arith);
                if exponent == scale - 22 {
                    assert(n * p >= p) by (nonlinear_arith)
                        requires
                            n >= 1,
                            p >= 0,
                    ;
                }
            }
            significand = significand * 2;
            exponent = exponent - 1;
        }
        let value = Binary32::from_bits(exponent * BINADE + (significand - BINADE));
        proof {
            let m = value.bits as int;
            let e = exponent as int;
            let s = significand as int;
            let p = pow2((e - 1) as nat) as int;
            lemma_significand(m, e, s);
            vstd::arithmetic::power2::lemma_pow2_adds((scale + 1 - e) as nat, (e - 1) as nat);
            assert(number * unit == s * p) by (nonlinear_arith)
                requires
                    s == number * pow2((scale + 1 - e) as nat),
                    unit == pow2((scale + 1 - e) as nat) * pow2((e - 1) as nat),
                    p == pow2((e - 1) as nat),
            ;
            lemma_exact_is_nearest(value);
            lemma_nearest_is_unique(value, number * unit, 1);
        }
        return Scaled { value, whole: wide };
    }
    let mut divisor: u64 = 1;
    let mut shift: u32 = 0;
    proof {
        vstd::arithmetic::power2::lemma2_to64();
    }
    while wide / divisor >= 2 * BINADE as u64
        invariant
            BINADE <= wide <= 0xffff_ffff,
            divisor == pow2(shift as nat),
            shift <= 8,
            0 < divisor <= 0x100,
            wide >= divisor * BINADE,
            pow2(8) == 0x100,
        decreases 0x200 - divisor,
    {
        proof {
            vstd::arithmetic::power2::lemma_pow2_unfold((shift + 1) as nat);
            let w = wide as int;
            let d = divisor as int;
            vstd::arithmetic::div_mod::lemma_fundamental_div_mod(w, d);
            let quotient = w / d;
            assert(w >= d * (2 * BINADE)) by (nonlinear_arith)
                requires
                    w >= d * quotient,
                    quotient >= 2 * BINADE,
                    d > 0,
            ;
            if shift == 8 {
                assert(false);
            }
            if shift < 7 {
                vstd::arithmetic::power2::lemma_pow2_strictly_increases((shift + 1) as nat, 8);
            }
        }
        divisor = divisor * 2;
        shift = shift + 1;
    }
    let down: u64 = wide / divisor;
    let rest: u64 = wide % divisor;
    proof {
        let w = wide as int;
        let d = divisor as int;
        vstd::arithmetic::div_mod::lemma_fundamental_div_mod(w, d);
        vstd::arithmetic::div_mod::lemma_div_is_ordered(d * BINADE, w, d);
        vstd::arithmetic::div_mod::lemma_div_multiples_vanish(BINADE as int, d);
        assert(down >= BINADE);
    }
    let significand: u32 = if 2 * rest > divisor || (2 * rest == divisor && down % 2 == 1) {
        (down + 1) as u32
    } else {
        down as u32
    };
    let exponent: u32 = scale + 1 + shift;
    let value = Binary32::from_bits(exponent * BINADE + (significand - BINADE));
    proof {
        let s = significand as int;
        let d = divisor as int;
        assert(s * d <= 0x100_0000 * 0x100) by (nonlinear_arith)
            requires
                0 <= s <= 0x100_0000,
                0 < d <= 0x100,
        ;
    }
    let whole: u64 = significand as u64 * divisor;
    proof {
        let m = value.bits as int;
        let e = exponent as int;
        let s = significand as int;
        let d = divisor as int;
        let n = number as int;
        let q = down as int;
        let r = rest as int;
        let p = pow2((e - 1) as nat) as int;
        lemma_significand(m, e, s);
        vstd::arithmetic::power2::lemma_pow2_adds(shift as nat, scale as nat);
        vstd::arithmetic::power2::lemma_pow2_pos(scale as nat);
        assert(p == d * unit);
        assert(n == d * q + r);
        let error = n - d * s;
        assert(d * (q + 1) == d * q + d) by (nonlinear_arith);
        assert(error == if s == q {
            r
        } else {
            r - d
        });
        assert(n * unit - s * p == error * unit) by (nonlinear_arith)
            requires
                p == d * unit,
                error == n - d * s,
        ;
        assert(2 * (error * unit) <= p && (2 * (error * unit) == p ==> 2 * error == d))
            by (nonlinear_arith)
            requires
                2 * error <= d,
                p == d * unit,
                unit > 0,
        ;
        assert(-2 * (error * unit) <= p && (-2 * (error * unit) == p ==> -2 * error == d))
            by (nonlinear_arith)
            requires
                -2 * error <= d,
                p == d * unit,
                unit > 0,
        ;
        if s == BINADE {
            assert(error >= 0);
            assert(error * unit >= 0) by (nonlinear_arith)
                requires
                    error >= 0,
                    unit > 0,
            ;
            lemma_size_step(m - 1);
        }
        assert(value.units() * 1 == s * p);
        assert(s * p == (s * d) * unit) by (nonlinear_arith)
            requires
                p == d * unit,
        ;
        if s == 2 * BINADE {
            assert(m % 2 == 0);
        }
        lemma_nearest(value, n * unit, 1);
        lemma_nearest_is_unique(value, n * unit, 1);
    }
    Scaled { value, whole }
}

/// A value is nearest to itself.
proof fn lemma_exact_is_nearest(value: Binary32)
    requires
        value.finite(),
        0 < value.bits < SIGN_WEIGHT,
    ensures
        is_nearest(value, value.units(), 1),
{
    lemma_size_step(value.bits as int);
    lemma_size_step(value.bits - 1);
    lemma_nearest(value, value.units(), 1);
}

/// A value that [`complement`] can take: zero, or between two to the power of
/// minus seven and four.
pub open spec fn is_controller_value(value: Binary32) -> bool {
    value.bits == 0 || 120 * BINADE <= value.bits < 129 * BINADE
}

/// One minus `value`, rounded to nearest: what lies between them, with a sign.
pub open spec fn one_minus(value: Binary32) -> Binary32 {
    let size = nearest(distance(pow2(149) as int, value.units()), 1);
    if value.units() > pow2(149) {
        Binary32::from_bits((size.bits + SIGN_WEIGHT) as u32)
    } else {
        size
    }
}

/// One minus `value`, rounded to nearest.
pub fn complement(value: Binary32) -> (result: Binary32)
    requires
        is_controller_value(value),
    ensures
        result == one_minus(value),
        value.units() <= pow2(149) ==> result.bits < SIGN_WEIGHT && is_nearest(
            result,
            pow2(149) - value.units(),
            1,
        ),
{
    let one: u32 = 0x4000_0000;
    proof {
        lemma_one();
    }
    if value.bits == 0 {
        proof {
            assert(value.units() == 0);
            lemma_exact_is_nearest(Binary32::from_bits(ONE_BITS));
            lemma_nearest_is_unique(Binary32::from_bits(ONE_BITS), pow2(149) as int, 1);
        }
        return Binary32::from_bits(ONE_BITS);
    }
    let exponent: u32 = value.bits / BINADE;
    let significand: u32 = BINADE + value.bits % BINADE;
    let shift: u32 = exponent - 120;
    let fixed: u32 = significand << shift;
    proof {
        let unit = pow2(119) as int;
        let s = significand as int;
        let p = pow2(shift as nat) as int;
        vstd::arithmetic::power2::lemma2_to64();
        if shift < 8 {
            vstd::arithmetic::power2::lemma_pow2_strictly_increases(shift as nat, 8);
        }
        assert(s * p <= 0xff_ffff * 0x100) by (nonlinear_arith)
            requires
                0 <= s <= 0xff_ffff,
                0 <= p <= 0x100,
        ;
        vstd::bits::lemma_u32_shl_is_mul(significand, shift);
        assert(fixed == s * p);
        vstd::arithmetic::power2::lemma_pow2_adds(shift as nat, 119);
        assert(value.units() == s * pow2((exponent - 1) as nat));
        assert(s * (p * unit) == (s * p) * unit) by (nonlinear_arith);
        assert(value.units() == fixed * unit);
        vstd::arithmetic::power2::lemma_pow2_adds(30, 119);
        assert(pow2(149) == one * unit);
        vstd::arithmetic::power2::lemma_pow2_pos(119);
        let f = fixed as int;
        let o = one as int;
        assert(f > o <==> f * unit > o * unit) by (nonlinear_arith)
            requires
                unit > 0,
        ;
        assert(distance(o * unit, f * unit) == distance(o, f) * unit) by (nonlinear_arith)
            requires
                unit > 0,
        ;
    }
    if fixed <= one {
        from_scaled(one - fixed, 119).value
    } else {
        let size = from_scaled(fixed - one, 119).value;
        Binary32::from_bits(size.bits + SIGN_WEIGHT)
    }
}

/// `value` less one, rounded to nearest: what lies between them, with a sign.
pub open spec fn less_one(value: Binary32) -> Binary32 {
    let size = nearest(distance(value.units(), pow2(149) as int), 1);
    if value.units() < pow2(149) {
        Binary32::from_bits((size.bits + SIGN_WEIGHT) as u32)
    } else {
        size
    }
}

/// Minus one.
pub const MINUS_ONE_BITS: u32 = 0xbf80_0000;

/// The largest number [`bipolar`] takes: the next ones would round to two.
pub const MAX_BIPOLAR: u32 = 0xffff_ff00;

/// `number` over two to the power of 31, less one, each rounded to nearest.
pub fn bipolar(number: u32) -> (value: Binary32)
    requires
        number <= MAX_BIPOLAR,
    ensures
        value == less_one(nearest(number * pow2(118), 1)),
        Binary32::from_bits(MINUS_ONE_BITS).at_most(value),
        value.below(Binary32::from_bits(ONE_BITS)),
{
    let one: u64 = 0x8000_0000;
    let fraction = from_scaled(number, 118);
    let ghost unit = pow2(118) as int;
    proof {
        lemma_one();
        vstd::arithmetic::power2::lemma2_to64();
        vstd::arithmetic::power2::lemma_pow2_adds(31, 118);
        vstd::arithmetic::power2::lemma_pow2_pos(118);
        lemma_below_two(fraction.value, number);
        let k = fraction.whole as int;
        assert(k <= MAX_BIPOLAR) by (nonlinear_arith)
            requires
                k * unit <= MAX_BIPOLAR * unit,
                unit > 0,
        ;
        assert(k < one <==> k * unit < one * unit) by (nonlinear_arith)
            requires
                unit > 0,
        ;
        assert(distance(k * unit, one * unit) == distance(k, one as int) * unit)
            by (nonlinear_arith)
            requires
                unit > 0,
        ;
    }
    if fraction.whole < one {
        let missing: u32 = (one - fraction.whole) as u32;
        let size = from_scaled(missing, 118).value;
        proof {
            let d = missing as int;
            assert(d * unit <= one * unit) by (nonlinear_arith)
                requires
                    d <= one,
                    unit > 0,
            ;
            lemma_nearest_at_most(size, d * unit, Binary32::from_bits(ONE_BITS));
        }
        Binary32::from_bits(size.bits + SIGN_WEIGHT)
    } else {
        let beyond: u32 = (fraction.whole - one) as u32;
        let size = from_scaled(beyond, 118).value;
        proof {
            let top = Binary32::from_bits(0x3f7f_fffe);
            vstd::arithmetic::power2::lemma_pow2_adds(7, 118);
            assert(top.units() == 0xff_fffe * pow2(125));
            let d = beyond as int;
            assert(d * unit <= 0x7fff_ff00 * unit) by (nonlinear_arith)
                requires
                    d <= 0x7fff_ff00,
                    unit > 0,
            ;
            lemma_nearest_at_most(size, d * unit, top);
        }
        size
    }
}

/// What is nearest to a number at most `bound` is at most `bound`.
proof fn lemma_nearest_at_most(value: Binary32, numerator: int, bound: Binary32)
    requires
        is_nearest(value, numerator, 1),
        value.bits < SIGN_WEIGHT,
        bound.finite(),
        bound.bits < SIGN_WEIGHT,
        numerator <= bound.units(),
    ensures
        value.units() <= bound.units(),
        value.bits <= bound.bits,
{
    crate::binary32::order_is_numeric(value, bound);
    crate::binary32::order_is_numeric(bound, value);
    assert(distance(value.units() * 1, numerator) <= distance(bound.units() * 1, numerator));
}

/// A number at most [`MAX_BIPOLAR`] does not round up to two.
proof fn lemma_below_two(value: Binary32, number: u32)
    requires
        number <= MAX_BIPOLAR,
        is_nearest(value, number * pow2(118), 1),
        value.bits < SIGN_WEIGHT,
    ensures
        value.units() <= MAX_BIPOLAR * pow2(118),
{
    let top = Binary32::from_bits(0x3fff_ffff);
    vstd::arithmetic::power2::lemma2_to64();
    vstd::arithmetic::power2::lemma_pow2_adds(8, 118);
    vstd::arithmetic::power2::lemma_pow2_pos(118);
    assert(top.units() == 0xff_ffff * pow2(126));
    let unit = pow2(118) as int;
    let n = number as int;
    assert(n * unit <= 0xffff_ff00 * unit) by (nonlinear_arith)
        requires
            n <= 0xffff_ff00,
            unit > 0,
    ;
    lemma_nearest_at_most(value, n * unit, top);
}

/// One, counted in units.
proof fn lemma_one()
    ensures
        Binary32::from_bits(ONE_BITS).units() == pow2(149),
{
    vstd::arithmetic::power2::lemma2_to64();
    vstd::arithmetic::power2::lemma_pow2_adds(23, 126);
}

} // verus!
