//! A deterministic noise source for string excitation.
//!
//! The excitation is noise, but a rendered note must be reproducible: a seeded
//! xorshift gives the same sequence for the same seed, every time.
use crate::binary32::{Binary32, ONE_BITS};
use crate::rounding;
use vstd::arithmetic::power2::pow2;
use vstd::prelude::*;

verus! {

/// The seed used when none is chosen.
pub const DEFAULT_SEED: u32 = 0x2545_F491;

/// What a zero seed is replaced by.
const ZERO_SEED_REPLACEMENT: u32 = 0x9E37_79B9;

/// The value that follows `state`.
pub open spec fn successor(state: u32) -> u32 {
    let first = state ^ (state << 13);
    let second = first ^ (first >> 17);
    second ^ (second << 5)
}

/// The state a generator starts in for `seed`.
pub open spec fn initial_state(seed: u32) -> u32 {
    if seed == 0 {
        0x9E37_79B9
    } else {
        seed
    }
}

/// The `count`-th value drawn from a generator in `state`, and `state` itself
/// for a count of zero.
pub open spec fn drawn(state: u32, count: nat) -> u32
    decreases count,
{
    if count == 0 {
        state
    } else {
        successor(drawn(state, (count - 1) as nat))
    }
}

/// The sample a drawn value stands for: the value over two to the power of 31, which
/// lies between zero and two, less one. The values that would round to two stand
/// for the largest sample below one.
pub open spec fn sample_of(value: u32) -> Binary32 {
    let capped = if value > rounding::MAX_BIPOLAR {
        rounding::MAX_BIPOLAR
    } else {
        value
    };
    rounding::less_one(rounding::nearest(capped * pow2(118), 1))
}

/// A 32-bit xorshift generator (Marsaglia, 2003).
#[derive(Debug, Clone, Copy, PartialEq, Eq, Structural)]
pub struct Xorshift32 {
    state: u32,
}

impl Xorshift32 {
    /// The state never reaches zero, where it would stay forever.
    #[verifier::type_invariant]
    spec fn running(self) -> bool {
        self.state != 0
    }

    /// The value drawn last, or the state chosen by the seed.
    pub closed spec fn state(self) -> u32 {
        self.state
    }

    /// A generator seeded with `seed`.
    pub closed spec fn seeded(seed: u32) -> Self {
        Xorshift32 { state: initial_state(seed) }
    }

    /// The generator after one more draw.
    pub closed spec fn stepped(self) -> Self {
        Xorshift32 { state: successor(self.state) }
    }

    /// The sample drawn next.
    pub open spec fn sample(self) -> Binary32 {
        sample_of(self.stepped().state())
    }

    /// Seeds the generator. A zero seed is replaced, because xorshift is stuck
    /// at zero forever.
    pub fn new(seed: u32) -> (generator: Self)
        ensures
            generator.state() == initial_state(seed),
            generator == Self::seeded(seed),
    {
        Xorshift32 {
            state: if seed == 0 {
                ZERO_SEED_REPLACEMENT
            } else {
                seed
            },
        }
    }

    /// Returns the next raw 32-bit value.
    pub fn next_u32(&mut self) -> (value: u32)
        ensures
            value == successor(old(self).state()),
            final(self).state() == value,
            *final(self) == old(self).stepped(),
            value != 0,
    {
        proof {
            use_type_invariant(&*self);
            successor_never_sticks(self.state, self.state);
        }
        let mut x: u32 = self.state;
        x = x ^ (x << 13);
        x = x ^ (x >> 17);
        x = x ^ (x << 5);
        self.state = x;
        x
    }

    /// Draws the next sample, uniformly distributed in `[-1, 1)`.
    pub fn next_bipolar(&mut self) -> (sample: Binary32)
        ensures
            final(self).state() == successor(old(self).state()),
            sample == sample_of(final(self).state()),
            *final(self) == old(self).stepped(),
            sample == old(self).sample(),
            Binary32::from_bits(rounding::MINUS_ONE_BITS).at_most(sample),
            sample.below(Binary32::from_bits(ONE_BITS)),
    {
        let value: u32 = self.next_u32();
        rounding::bipolar(
            if value > rounding::MAX_BIPOLAR {
                rounding::MAX_BIPOLAR
            } else {
                value
            },
        )
    }
}

impl Default for Xorshift32 {
    fn default() -> (generator: Self)
        ensures
            generator.state() == DEFAULT_SEED,
    {
        Xorshift32::new(DEFAULT_SEED)
    }
}

/// No two states share a successor, and only zero leads to zero: a generator
/// never runs into a shorter cycle and never gets stuck.
pub proof fn successor_never_sticks(left: u32, right: u32)
    ensures
        left != 0 ==> successor(left) != 0,
        successor(left) == successor(right) ==> left == right,
{
    assert(left != 0 ==> successor(left) != 0) by (bit_vector);
    lemma_shift_13(left, right);
    let a = left ^ (left << 13);
    let b = right ^ (right << 13);
    lemma_shift_17(a, b);
    let c = a ^ (a >> 17);
    let d = b ^ (b >> 17);
    lemma_shift_5(c, d);
}

proof fn lemma_shift_13(x: u32, y: u32)
    by (bit_vector)
    ensures
        x ^ (x << 13) == y ^ (y << 13) ==> x == y,
{
}

proof fn lemma_shift_17(x: u32, y: u32)
    by (bit_vector)
    ensures
        x ^ (x >> 17) == y ^ (y >> 17) ==> x == y,
{
}

proof fn lemma_shift_5(x: u32, y: u32)
    by (bit_vector)
    ensures
        x ^ (x << 5) == y ^ (y << 5) ==> x == y,
{
}

/// Whatever the seed, no value drawn is ever zero.
pub proof fn no_draw_is_zero(seed: u32, count: nat)
    ensures
        drawn(initial_state(seed), count) != 0,
    decreases count,
{
    if count > 0 {
        no_draw_is_zero(seed, (count - 1) as nat);
        let before = drawn(initial_state(seed), (count - 1) as nat);
        successor_never_sticks(before, before);
    }
}

} // verus!
