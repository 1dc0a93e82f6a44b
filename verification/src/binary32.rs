//! Single-precision numbers, known by their bits.
//!
//! Sound is computed in single precision, but most of what decides *what* to
//! compute (is this pitch usable, is this gain in range, is this string still
//! audible) only compares numbers. [`Binary32`] holds the thirty-two bits of an
//! IEEE 754 binary32 value and compares them exactly, so those decisions can be
//! stated and proved without any arithmetic that rounds.
use vstd::arithmetic::power2::{
    lemma_pow2_pos, lemma_pow2_strictly_increases, lemma_pow2_unfold, pow2,
};
use vstd::prelude::*;

verus! {

/// The weight of the sign bit.
pub const SIGN_WEIGHT: u32 = 0x8000_0000;

/// The bits of positive infinity: every larger magnitude is a NaN.
pub const INFINITY_BITS: u32 = 0x7f80_0000;

/// The number of values in one binade, which is the weight of the exponent's
/// lowest bit.
pub const BINADE: u32 = 0x80_0000;

/// A binary32 value.
///
/// Two of these are `==` when their bits are, so a NaN equals itself and the
/// two zeros differ. [`Binary32::lt`] and [`Binary32::le`] compare as numbers.
#[derive(Debug, Clone, Copy, PartialEq, Eq, Structural)]
pub struct Binary32 {
    /// The IEEE 754 encoding.
    pub bits: u32,
}

/// The bits of one.
pub const ONE_BITS: u32 = 0x3f80_0000;

impl Binary32 {
    /// The bits without the sign.
    pub open spec fn magnitude(self) -> int {
        if self.bits >= SIGN_WEIGHT {
            self.bits - SIGN_WEIGHT
        } else {
            self.bits as int
        }
    }

    /// Not a number.
    pub open spec fn nan(self) -> bool {
        self.magnitude() > INFINITY_BITS
    }

    /// Neither infinite nor a NaN.
    pub open spec fn finite(self) -> bool {
        self.magnitude() < INFINITY_BITS
    }

    /// The place of a value in the order of all values, the zeros in the middle.
    pub open spec fn rank(self) -> int {
        if self.bits >= SIGN_WEIGHT {
            -self.magnitude()
        } else {
            self.magnitude()
        }
    }

    /// The value of a finite number, in multiples of the smallest positive one
    /// (two to the power of minus 149, of which every finite value is a whole
    /// multiple). An infinity counts as the first value past the largest
    /// finite one.
    pub open spec fn units(self) -> int {
        let exponent = self.magnitude() / (BINADE as int);
        let fraction = self.magnitude() % (BINADE as int);
        let size = if exponent == 0 {
            fraction
        } else {
            (BINADE + fraction) * pow2((exponent - 1) as nat)
        };
        if self.bits >= SIGN_WEIGHT {
            -size
        } else {
            size
        }
    }

    /// `self < other` as numbers; false when either is a NaN.
    pub open spec fn below(self, other: Self) -> bool {
        !self.nan() && !other.nan() && self.rank() < other.rank()
    }

    /// `self <= other` as numbers; false when either is a NaN.
    pub open spec fn at_most(self, other: Self) -> bool {
        !self.nan() && !other.nan() && self.rank() <= other.rank()
    }

    /// Finite and within `[low, high]`.
    pub open spec fn within(self, low: Self, high: Self) -> bool {
        low.at_most(self) && self.at_most(high)
    }

    /// `self` confined to `[low, high]`; a NaN stays as it is.
    pub open spec fn confined(self, low: Self, high: Self) -> Self {
        if self.below(low) {
            low
        } else if high.below(self) {
            high
        } else {
            self
        }
    }

    /// The value with the given bits.
    #[verifier::allow_in_spec]
    pub fn from_bits(bits: u32) -> Self
        returns
            (Binary32 { bits }),
    {
        Binary32 { bits }
    }

    /// The bits of the value.
    pub fn to_bits(self) -> (bits: u32)
        ensures
            bits == self.bits,
    {
        self.bits
    }

    /// The value without its sign.
    pub fn abs(self) -> (value: Self)
        ensures
            value.bits == self.magnitude(),
    {
        if self.bits >= SIGN_WEIGHT {
            Binary32 { bits: self.bits - SIGN_WEIGHT }
        } else {
            self
        }
    }

    /// Whether the value is a NaN.
    pub fn is_nan(self) -> (result: bool)
        ensures
            result == self.nan(),
    {
        self.abs().bits > INFINITY_BITS
    }

    /// Whether the value is neither infinite nor a NaN.
    pub fn is_finite(self) -> (result: bool)
        ensures
            result == self.finite(),
    {
        self.abs().bits < INFINITY_BITS
    }

    /// `self < other` as numbers.
    pub fn lt(self, other: Self) -> (result: bool)
        ensures
            result == self.below(other),
    {
        if self.is_nan() || other.is_nan() {
            return false;
        }
        if self.bits >= SIGN_WEIGHT {
            if other.bits >= SIGN_WEIGHT {
                self.bits > other.bits
            } else {
                self.bits != SIGN_WEIGHT || other.bits != 0
            }
        } else {
            other.bits < SIGN_WEIGHT && self.bits < other.bits
        }
    }

    /// `self <= other` as numbers.
    pub fn le(self, other: Self) -> (result: bool)
        ensures
            result == self.at_most(other),
    {
        !self.is_nan() && !other.is_nan() && !other.lt(self)
    }

    /// The larger of two values; where one is a NaN, the other.
    pub fn max(self, other: Self) -> (value: Self)
        ensures
            value == if self.nan() || self.below(other) { other } else { self },
    {
        if self.is_nan() || self.lt(other) {
            other
        } else {
            self
        }
    }

    /// `self` confined to `[low, high]`; a NaN stays as it is.
    pub fn clamp(self, low: Self, high: Self) -> (value: Self)
        requires
            low.at_most(high),
        ensures
            value == self.confined(low, high),
            !self.nan() ==> value.within(low, high),
    {
        if self.lt(low) {
            low
        } else if high.lt(self) {
            high
        } else {
            self
        }
    }
}

impl Binary32 {
    /// The whole part of a positive value, zero for everything else.
    pub open spec fn whole(self) -> int {
        if self.nan() || self.rank() <= 0 {
            0
        } else {
            self.units() / (pow2(149) as int)
        }
    }

    /// The whole number `number`.
    pub open spec fn natural(number: int) -> Self {
        choose|value: Binary32| value.is_natural(number)
    }

    /// The value is exactly the whole number `number`.
    pub open spec fn is_natural(self, number: int) -> bool {
        self.finite() && self.bits < SIGN_WEIGHT && self.units() == number * pow2(149)
    }

    /// The value with the other sign.
    pub open spec fn opposite(self) -> Self {
        Binary32 {
            bits: if self.bits < SIGN_WEIGHT {
                (self.bits + SIGN_WEIGHT) as u32
            } else {
                (self.bits - SIGN_WEIGHT) as u32
            },
        }
    }

    /// The value with the other sign.
    pub fn negated(self) -> (value: Self)
        ensures
            value == self.opposite(),
            value.units() == -self.units(),
    {
        if self.bits < SIGN_WEIGHT {
            Binary32 { bits: self.bits + SIGN_WEIGHT }
        } else {
            Binary32 { bits: self.bits - SIGN_WEIGHT }
        }
    }

    /// The value is half of `whole`; where that falls between two values (which
    /// only the smallest magnitudes can do), the one with the even last bit. What is
    /// not finite is its own half.
    pub open spec fn is_half_of(self, whole: Self) -> bool {
        &&& !whole.finite() ==> self == whole
        &&& whole.finite() ==> self.is_finite_half_of(whole)
    }

    /// The value is half of the finite value `whole`.
    pub open spec fn is_finite_half_of(self, whole: Self) -> bool {
        &&& self.finite()
        &&& self.bits >= SIGN_WEIGHT <==> whole.bits >= SIGN_WEIGHT
        &&& 2 * self.units() == whole.units() || {
            &&& whole.units() % 2 != 0
            &&& self.units() % 2 == 0
            &&& -1 <= 2 * self.units() - whole.units() <= 1
        }
    }

    /// Half of the value; where that falls between two values (which only the
    /// smallest magnitudes can do), the one with the even last bit. What is not
    /// finite is its own half.
    pub fn half(self) -> (value: Self)
        ensures
            value.is_half_of(self),
    {
        if !self.is_finite() {
            return self;
        }
        let magnitude: u32 = self.abs().bits;
        let sign: u32 = self.bits - magnitude;
        if magnitude >= 2 * BINADE {
            let value = Binary32 { bits: sign + (magnitude - BINADE) };
            proof {
                let e = magnitude as int / (BINADE as int);
                let f = magnitude as int % (BINADE as int);
                lemma_split(e - 1, f);
                lemma_pow2_unfold((e - 1) as nat);
                let p = pow2((e - 2) as nat) as int;
                assert(2 * ((BINADE + f) * p) == (BINADE + f) * (2 * p)) by (nonlinear_arith);
            }
            value
        } else {
            let down: u32 = magnitude / 2;
            let rounded: u32 = if magnitude % 2 == 1 && down % 2 == 1 {
                down + 1
            } else {
                down
            };
            let value = Binary32 { bits: sign + rounded };
            proof {
                lemma_small(self);
                lemma_small(value);
            }
            value
        }
    }

    /// A whole number below two to the power of 24, exactly.
    pub fn from_natural(number: u32) -> (value: Self)
        requires
            number < 2 * BINADE,
        ensures
            value == Binary32::natural(number as int),
            value.is_natural(number as int),
    {
        if number == 0 {
            proof {
                lemma_natural(Binary32 { bits: 0 }, 0);
            }
            return Binary32 { bits: 0 };
        }
        let mut exponent: u32 = 150;
        let mut fraction: u32 = number;
        proof {
            vstd::arithmetic::power2::lemma2_to64();
            assert(number * pow2(0) == number) by (nonlinear_arith)
                requires
                    pow2(0) == 1,
            ;
        }
        while fraction < BINADE
            invariant
                0 < number < 2 * BINADE,
                0 < fraction < 2 * BINADE,
                126 <= exponent <= 150,
                fraction == number * pow2((150 - exponent) as nat),
                pow2(24) == 2 * BINADE,
            decreases 2 * BINADE - fraction,
        {
            proof {
                lemma_pow2_unfold((151 - exponent) as nat);
                let p = pow2((150 - exponent) as nat) as int;
                let n = number as int;
                assert(2 * (n * p) == n * (2 * p)) by (nonlinear_arith);
                if exponent == 126 {
                    assert(n * p >= p) by (nonlinear_arith)
                        requires
                            n >= 1,
                            p >= 0,
                    ;
                }
            }
            fraction = fraction * 2;
            exponent = exponent - 1;
        }
        let value = Binary32 { bits: exponent * BINADE + (fraction - BINADE) };
        proof {
            lemma_split(exponent as int, fraction - BINADE);
            let k = (150 - exponent) as nat;
            let n = number as int;
            let p = pow2(k) as int;
            let q = pow2((exponent - 1) as nat) as int;
            vstd::arithmetic::power2::lemma_pow2_adds(k, (exponent - 1) as nat);
            assert((n * p) * q == n * (p * q)) by (nonlinear_arith);
            lemma_natural(value, number as int);
        }
        value
    }

    /// The whole part, as a machine integer: zero for a NaN or anything below
    /// one, the largest integer for anything too large.
    pub fn truncate(self) -> (whole: usize)
        ensures
            whole == if self.whole() > usize::MAX { usize::MAX as int } else { self.whole() },
    {
        if self.is_nan() || self.bits >= SIGN_WEIGHT {
            return 0;
        }
        let exponent: u32 = self.bits / BINADE;
        let significand: u32 = BINADE + self.bits % BINADE;
        proof {
            lemma_whole(self);
        }
        if exponent < 127 {
            return 0;
        }
        if exponent < 150 {
            let shift: u32 = 150 - exponent;
            let whole: u32 = significand >> shift;
            proof {
                vstd::bits::lemma_u32_shr_is_div(significand, shift);
                vstd::arithmetic::power2::lemma2_to64();
            }
            return whole as usize;
        }
        if exponent > 190 {
            proof {
                vstd::arithmetic::power2::lemma2_to64_rest();
                if exponent > 191 {
                    lemma_pow2_strictly_increases(41, (exponent - 150) as nat);
                }
                let p = pow2((exponent - 150) as nat) as int;
                let s = significand as int;
                assert(s * p >= 0x80_0000 * 0x200_0000_0000) by (nonlinear_arith)
                    requires
                        s >= 0x80_0000,
                        p >= 0x200_0000_0000,
                ;
            }
            return usize::MAX;
        }
        let shift: u64 = (exponent - 150) as u64;
        let wide: u64 = significand as u64;
        proof {
            vstd::arithmetic::power2::lemma2_to64();
            vstd::arithmetic::power2::lemma2_to64_rest();
            if shift < 40 {
                lemma_pow2_strictly_increases(shift as nat, 40);
            }
            let p = pow2(shift as nat) as int;
            assert(wide * p <= 0xff_ffff * 0x100_0000_0000) by (nonlinear_arith)
                requires
                    0 <= wide <= 0xff_ffff,
                    0 <= p <= 0x100_0000_0000,
            ;
            vstd::bits::lemma_u64_shl_is_mul(wide, shift);
        }
        let whole: u64 = wide << shift;
        if whole > usize::MAX as u64 {
            usize::MAX
        } else {
            whole as usize
        }
    }
}

/// A magnitude below two binades counts its own units.
proof fn lemma_small(value: Binary32)
    requires
        value.magnitude() < 2 * BINADE,
    ensures
        value.units() == value.rank(),
{
    vstd::arithmetic::power2::lemma2_to64();
    let fraction = value.magnitude() % (BINADE as int);
    assert((BINADE + fraction) * pow2(0) == BINADE + fraction) by (nonlinear_arith)
        requires
            pow2(0) == 1,
    ;
}

/// Exponent and fraction can be read back from their sum.
proof fn lemma_split(exponent: int, fraction: int)
    requires
        0 <= exponent,
        0 <= fraction < BINADE,
    ensures
        (exponent * BINADE + fraction) / (BINADE as int) == exponent,
        (exponent * BINADE + fraction) % (BINADE as int) == fraction,
{
}

/// The whole part in terms of exponent and significand.
proof fn lemma_whole(value: Binary32)
    requires
        value.bits < SIGN_WEIGHT,
        !value.nan(),
    ensures
        ({
            let exponent = value.bits as int / (BINADE as int);
            let significand = BINADE + value.bits as int % (BINADE as int);
            &&& exponent < 127 ==> value.whole() == 0
            &&& 127 <= exponent < 150 ==> value.whole() == significand / (pow2(
                (150 - exponent) as nat,
            ) as int)
            &&& 150 <= exponent ==> value.whole() == significand * pow2((exponent - 150) as nat)
        }),
{
    lemma_pow2_pos(149);
    let e = value.bits as int / (BINADE as int);
    let s = BINADE + value.bits as int % (BINADE as int);
    let unit = pow2(149) as int;
    if e == 0 {
        lemma_small(value);
        lemma_pow2_strictly_increases(24, 149);
        vstd::arithmetic::power2::lemma2_to64();
        vstd::arithmetic::div_mod::lemma_basic_div(value.units(), unit);
    } else {
        let p = pow2((e - 1) as nat) as int;
        lemma_pow2_pos((e - 1) as nat);
        assert(value.units() == s * p);
        if e >= 150 {
            vstd::arithmetic::power2::lemma_pow2_adds((e - 150) as nat, 149);
            let q = pow2((e - 150) as nat) as int;
            lemma_pow2_pos((e - 150) as nat);
            assert(s * (q * unit) == (s * q) * unit) by (nonlinear_arith);
            vstd::arithmetic::div_mod::lemma_div_by_multiple(s * q, unit);
        } else {
            vstd::arithmetic::power2::lemma_pow2_adds((e - 1) as nat, (150 - e) as nat);
            let q = pow2((150 - e) as nat) as int;
            lemma_pow2_pos((150 - e) as nat);
            assert(p * q == unit);
            assert(s * p >= 0) by (nonlinear_arith)
                requires
                    s >= 0,
                    p >= 0,
            ;
            vstd::arithmetic::div_mod::lemma_div_denominator(s * p, p, q);
            vstd::arithmetic::div_mod::lemma_div_by_multiple(s, p);
            assert(value.whole() == s / q);
            if e < 127 {
                lemma_pow2_strictly_increases(23, (150 - e) as nat);
                vstd::arithmetic::power2::lemma2_to64();
                lemma_pow2_unfold(24);
                if 150 - e > 24 {
                    lemma_pow2_strictly_increases(24, (150 - e) as nat);
                }
                vstd::arithmetic::div_mod::lemma_basic_div(s, q);
            }
        }
    }
}

/// Comparing ranks compares the numbers themselves.
pub proof fn order_is_numeric(left: Binary32, right: Binary32)
    ensures
        left.rank() < right.rank() <==> left.units() < right.units(),
        left.rank() == right.rank() <==> left.units() == right.units(),
{
    let a = left.magnitude();
    let b = right.magnitude();
    lemma_size_grows(0, a);
    lemma_size_grows(0, b);
    lemma_size_grows(a, b);
    lemma_size_grows(b, a);
}

/// Only one value is a given whole number.
proof fn lemma_natural(value: Binary32, number: int)
    requires
        value.is_natural(number),
    ensures
        value == Binary32::natural(number),
{
    order_is_numeric(value, Binary32::natural(number));
}

/// A non-negative value no larger than a whole number has no larger whole part.
pub proof fn lemma_whole_bounded(value: Binary32, bound: Binary32, number: nat)
    requires
        Binary32::from_bits(0).at_most(value),
        value.at_most(bound),
        bound.units() == number * pow2(149),
    ensures
        0 <= value.whole() <= number,
{
    let unit = pow2(149) as int;
    lemma_pow2_pos(149);
    order_is_numeric(value, bound);
    order_is_numeric(Binary32::from_bits(0), value);
    assert(Binary32::from_bits(0).units() == 0);
    vstd::arithmetic::div_mod::lemma_div_is_ordered(value.units(), number * unit, unit);
    vstd::arithmetic::div_mod::lemma_div_by_multiple(number as int, unit);
    vstd::arithmetic::div_mod::lemma_div_pos_is_pos(value.units(), unit);
}

/// Two, counted in units.
pub proof fn lemma_two(value: Binary32)
    requires
        value.bits == 0x4000_0000,
    ensures
        value.units() == 2 * pow2(149),
{
    vstd::arithmetic::power2::lemma2_to64();
    vstd::arithmetic::power2::lemma_pow2_adds(23, 127);
    vstd::arithmetic::power2::lemma_pow2_unfold(150);
}

/// A whole part is never negative.
pub proof fn lemma_whole_non_negative(value: Binary32)
    ensures
        value.whole() >= 0,
{
    lemma_pow2_pos(149);
    order_is_numeric(Binary32::from_bits(0), value);
    assert(Binary32::from_bits(0).units() == 0);
    if value.rank() > 0 {
        vstd::arithmetic::div_mod::lemma_div_pos_is_pos(value.units(), pow2(149) as int);
    }
}

/// The size of a magnitude, in the units of [`Binary32::units`].
pub open spec fn size(magnitude: int) -> int {
    let exponent = magnitude / (BINADE as int);
    let fraction = magnitude % (BINADE as int);
    if exponent == 0 {
        fraction
    } else {
        (BINADE + fraction) * pow2((exponent - 1) as nat)
    }
}

/// Sizes are in the order of their magnitudes.
pub proof fn lemma_size_order(low: int, high: int)
    requires
        0 <= low <= high,
    ensures
        0 <= size(low) <= size(high),
{
    lemma_size_grows(low, high);
    lemma_size_grows(0, low);
}

/// The step from one magnitude to the next: one unit in the lowest two binades,
/// and twice as much in each binade as in the one before.
pub proof fn lemma_size_step(magnitude: int)
    requires
        0 <= magnitude,
    ensures
        size(magnitude + 1) - size(magnitude) == if magnitude < BINADE {
            1
        } else {
            pow2((magnitude / (BINADE as int) - 1) as nat) as int
        },
        size(magnitude + 1) > size(magnitude),
{
    let binade = BINADE as int;
    let e = magnitude / binade;
    let f = magnitude % binade;
    lemma_size_grows(magnitude, magnitude + 1);
    vstd::arithmetic::power2::lemma2_to64();
    if f + 1 < binade {
        assert((magnitude + 1) / binade == e && (magnitude + 1) % binade == f + 1);
        if e > 0 {
            let p = pow2((e - 1) as nat) as int;
            assert((binade + f + 1) * p == (binade + f) * p + p) by (nonlinear_arith);
        }
    } else {
        assert((magnitude + 1) / binade == e + 1 && (magnitude + 1) % binade == 0);
        let q = pow2(e as nat) as int;
        if e > 0 {
            let p = pow2((e - 1) as nat) as int;
            lemma_pow2_unfold(e as nat);
            assert(binade * (2 * p) == (binade + (binade - 1)) * p + p) by (nonlinear_arith);
        } else {
            assert(binade * q == binade) by (nonlinear_arith)
                requires
                    q == 1,
            ;
        }
    }
}

proof fn lemma_size_grows(low: int, high: int)
    requires
        0 <= low,
        0 <= high,
    ensures
        low < high ==> size(low) < size(high),
        size(0) == 0,
{
    if low < high {
        let binade = BINADE as int;
        let e = low / binade;
        let f = low % binade;
        let g = high / binade;
        let h = high % binade;
        assert(low == e * binade + f && 0 <= f < binade);
        assert(high == g * binade + h && 0 <= h < binade);
        if e == g {
            if e > 0 {
                lemma_pow2_pos((e - 1) as nat);
                let p = pow2((e - 1) as nat) as int;
                assert((binade + f) * p < (binade + h) * p) by (nonlinear_arith)
                    requires
                        f < h,
                        p > 0,
                ;
            }
        } else {
            assert(e < g);
            lemma_pow2_pos((g - 1) as nat);
            let q = pow2((g - 1) as nat) as int;
            assert((binade + h) * q >= binade * q) by (nonlinear_arith)
                requires
                    h >= 0,
                    q > 0,
            ;
            assert(binade * q >= binade) by (nonlinear_arith)
                requires
                    q >= 1,
                    binade > 0,
            ;
            if e > 0 {
                lemma_pow2_pos((e - 1) as nat);
                let p = pow2((e - 1) as nat) as int;
                lemma_pow2_unfold(e as nat);
                if e < g - 1 {
                    lemma_pow2_strictly_increases(e as nat, (g - 1) as nat);
                }
                assert(2 * p <= q);
                assert((binade + f) * p < binade * q) by (nonlinear_arith)
                    requires
                        f < binade,
                        0 < p,
                        2 * p <= q,
                        binade > 0,
                ;
            }
        }
    }
}

} // verus!
