//! A fixed-capacity delay line: the memory of a vibrating string.
//!
//! Physically, a delay line is a stretch of string that a wave takes a number
//! of samples to travel across. Everything else in a waveguide model is a
//! filter applied to what comes out of it.
use crate::binary32::Binary32;
use crate::math;
use vstd::arithmetic::power2::{lemma_pow2_pos, lemma_pow2_unfold, pow2};
use vstd::prelude::*;

verus! {

/// Upper bound on delay-line capacity, in samples.
///
/// Roughly 87 seconds at 48 kHz, far beyond any string.
pub const MAX_CAPACITY: usize = 0x40_0000;

/// Lower bound on delay-line capacity, in samples.
pub const MIN_CAPACITY: usize = 2;

/// A request confined to the capacities a line can have.
pub open spec fn granted(requested: int) -> int {
    if requested < MIN_CAPACITY {
        MIN_CAPACITY as int
    } else if requested > MAX_CAPACITY {
        MAX_CAPACITY as int
    } else {
        requested
    }
}

/// A power of two no larger than [`MAX_CAPACITY`].
pub open spec fn is_capacity(capacity: int) -> bool {
    exists|exponent: nat| 1 <= exponent <= 22 && capacity == #[trigger] pow2(exponent)
}

/// A circular buffer with power-of-two capacity.
///
/// The capacity is always a power of two so that wrapping is a bitmask instead
/// of a division.
#[derive(Debug, Clone)]
pub struct DelayLine<T> {
    buffer: Vec<T>,
    mask: usize,
    write_index: usize,
    silence: T,
}

/// The two samples a fractional delay falls between.
#[derive(Debug, Clone, Copy)]
pub struct Taps<T> {
    /// The delay asked for, confined to what the line holds.
    pub delay: Binary32,
    /// The whole part of that delay.
    pub whole: usize,
    /// The sample that many samples old.
    pub earlier: T,
    /// The sample one sample older.
    pub later: T,
}

impl<T: Copy> DelayLine<T> {
    /// The line's shape is intact.
    pub closed spec fn wf(&self) -> bool {
        &&& self.buffer@.len() == self.mask + 1
        &&& is_capacity(self.mask + 1)
        &&& self.mask + 1 <= MAX_CAPACITY
        &&& self.write_index <= self.mask
    }

    /// The samples by age: the one written last first, and as many as the line
    /// holds.
    pub closed spec fn view(&self) -> Seq<T> {
        Seq::new(
            self.buffer@.len(),
            |age: int|
                self.buffer@[if age <= self.write_index {
                    self.write_index - age
                } else {
                    self.write_index - age + self.buffer@.len()
                }],
        )
    }

    /// The sample of an untouched line.
    pub closed spec fn silence(&self) -> T {
        self.silence
    }

    /// A well-formed line holds at least one sample.
    pub proof fn holds_a_sample(&self)
        requires
            self.wf(),
        ensures
            self@.len() > 0,
    {
    }

    /// Allocates a delay line able to hold at least `requested` samples, every
    /// one of them `silence`.
    ///
    /// The request is clamped into `[MIN_CAPACITY, MAX_CAPACITY]` and rounded
    /// up to a power of two, so this never fails.
    pub fn with_capacity(requested: usize, silence: T) -> (line: Self)
        ensures
            line.wf(),
            line.silence() == silence,
            line@ == Seq::new(line@.len(), |age: int| silence),
            line@.len() == capacity_for(requested as int),
            2 <= line@.len() <= MAX_CAPACITY,
            is_capacity(line@.len() as int),
            granted(requested as int) <= line@.len() < 2 * granted(requested as int),
    {
        let capacity: usize = rounded_capacity(requested);
        let mut buffer: Vec<T> = Vec::with_capacity(capacity);
        while buffer.len() < capacity
            invariant
                buffer@.len() <= capacity,
                forall|i: int| 0 <= i < buffer@.len() ==> buffer@[i] == silence,
            decreases capacity - buffer@.len(),
        {
            buffer.push(silence);
        }
        DelayLine { buffer, mask: capacity - 1, write_index: 0, silence }
    }

    /// How many samples the line can hold.
    pub fn capacity(&self) -> (capacity: usize)
        requires
            self.wf(),
        ensures
            capacity == self@.len(),
            is_capacity(capacity as int),
            capacity <= MAX_CAPACITY,
    {
        self.mask + 1
    }

    /// The longest delay that can be read back without wrapping onto itself.
    pub fn max_delay(&self) -> (delay: usize)
        requires
            self.wf(),
        ensures
            delay == self@.len() - 1,
    {
        self.mask
    }

    /// Advances the write head and stores `sample` at it.
    ///
    /// After this call, `read(0)` returns `sample`, and every older sample has
    /// aged by one.
    pub fn write(&mut self, sample: T)
        requires
            old(self).wf(),
        ensures
            final(self).wf(),
            final(self).silence() == old(self).silence(),
            final(self)@ == seq![sample] + old(self)@.drop_last(),
            final(self)@.len() == old(self)@.len(),
    {
        proof {
            lemma_mask(self.mask, (self.write_index + 1) as usize);
            lemma_wrap((self.write_index + 1) as int, self.mask + 1);
        }
        self.write_index = (self.write_index + 1) & self.mask;
        let index: usize = self.write_index;
        self.buffer.set(index, sample);
        assert(self@ =~= seq![sample] + old(self)@.drop_last());
    }

    /// Reads the sample written `delay_samples` ago.
    ///
    /// Delays larger than the capacity wrap around; the caller is expected to
    /// have sized the line correctly.
    pub fn read(&self, delay_samples: usize) -> (sample: T)
        requires
            self.wf(),
        ensures
            sample == self@[delay_samples as int % self@.len() as int],
    {
        self.buffer[self.slot(delay_samples)]
    }

    /// Reads the two samples a fractional delay falls between, for the caller to
    /// interpolate.
    ///
    /// The delay is clamped to what the line holds; a NaN reads delay zero.
    pub fn read_interpolated(&self, delay_samples: Binary32) -> (taps: Taps<T>)
        requires
            self.wf(),
        ensures
            taps.delay == math::bounded(
                delay_samples,
                Binary32::from_bits(0),
                Binary32::natural(self@.len() - 1),
            ),
            taps.whole == taps.delay.whole(),
            taps.whole < self@.len(),
            taps.earlier == self@[taps.whole as int],
            taps.later == self@[(taps.whole + 1) % self@.len() as int],
    {
        let longest: Binary32 = Binary32::from_natural(self.mask as u32);
        let delay: Binary32 = math::clamp_or_low(delay_samples, Binary32::from_bits(0), longest);
        let whole: usize = delay.truncate();
        proof {
            crate::binary32::lemma_whole_bounded(delay, longest, self.mask as nat);
            vstd::arithmetic::div_mod::lemma_small_mod(whole as nat, self@.len());
        }
        Taps { delay, whole, earlier: self.read(whole), later: self.read(whole + 1) }
    }

    /// Where the sample written `delay_samples` ago lies.
    fn slot(&self, delay_samples: usize) -> (slot: usize)
        requires
            self.wf(),
        ensures
            slot < self.buffer@.len(),
            ({
                let age = delay_samples as int % self@.len() as int;
                slot == if age <= self.write_index {
                    self.write_index - age
                } else {
                    self.write_index - age + self.buffer@.len()
                }
            }),
    {
        let age: usize = delay_samples & self.mask;
        proof {
            lemma_mask(self.mask, delay_samples);
            lemma_mask(self.mask, (self.write_index + self.mask + 1 - age) as usize);
            lemma_wrap(self.write_index + self.mask + 1 - age, self.mask + 1);
        }
        (self.write_index + self.mask + 1 - age) & self.mask
    }

    /// Silences the whole buffer and rewinds the write head.
    pub fn clear(&mut self)
        requires
            old(self).wf(),
        ensures
            final(self).wf(),
            final(self).silence() == old(self).silence(),
            final(self)@ == Seq::new(old(self)@.len(), |age: int| old(self).silence()),
    {
        let silence = self.silence;
        let mut index: usize = 0;
        while index < self.buffer.len()
            invariant
                self.buffer@.len() == old(self).buffer@.len(),
                self.mask == old(self).mask,
                self.silence == old(self).silence,
                self.silence == silence,
                index <= self.buffer@.len(),
                forall|i: int| 0 <= i < index ==> self.buffer@[i] == silence,
            decreases self.buffer@.len() - index,
        {
            self.buffer.set(index, silence);
            index = index + 1;
        }
        self.write_index = 0;
    }

    /// Sums the newest `burst_length` samples with their inverted reflection
    /// `comb_delay` samples earlier, in place: every one of them is replaced by
    /// the `difference` between itself and the sample `comb_delay` older.
    ///
    /// A hammer that lands part of the way along a string sends a wave both
    /// ways; the one reflected at the near end comes back inverted, and
    /// together they leave out the partials with a node where the hammer
    /// landed. A delay of zero leaves the line as it is.
    pub fn apply_strike_comb<F: Fn(T, T) -> T>(
        &mut self,
        burst_length: usize,
        comb_delay: usize,
        difference: &F,
    )
        requires
            old(self).wf(),
            comb_delay == 0 || burst_length + comb_delay <= old(self)@.len(),
            forall|own: T, earlier: T| difference.requires((own, earlier)),
        ensures
            final(self).wf(),
            final(self).silence() == old(self).silence(),
            final(self)@.len() == old(self)@.len(),
            comb_delay == 0 ==> final(self)@ == old(self)@,
            comb_delay > 0 ==> forall|age: int|
                0 <= age < burst_length ==> difference.ensures(
                    (old(self)@[age], old(self)@[age + comb_delay]),
                    #[trigger] final(self)@[age],
                ),
            comb_delay > 0 ==> forall|age: int|
                burst_length <= age < old(self)@.len() ==> #[trigger] final(self)@[age] == old(self)@[age],
    {
        if comb_delay == 0 {
            return;
        }
        let mut age: usize = 0;
        while age < burst_length
            invariant
                self.wf(),
                self.silence() == old(self).silence(),
                self@.len() == old(self)@.len(),
                self.mask == old(self).mask,
                self.write_index == old(self).write_index,
                0 < comb_delay,
                age <= burst_length,
                burst_length + comb_delay <= self@.len(),
                forall|own: T, earlier: T| difference.requires((own, earlier)),
                forall|a: int|
                    0 <= a < age ==> difference.ensures(
                        (old(self)@[a], old(self)@[a + comb_delay]),
                        #[trigger] self@[a],
                    ),
                forall|a: int| age <= a < self@.len() ==> #[trigger] self@[a] == old(self)@[a],
            decreases burst_length - age,
        {
            let ghost before = self@;
            let own = self.read(age);
            let earlier = self.read(age + comb_delay);
            proof {
                vstd::arithmetic::div_mod::lemma_small_mod(age as nat, self@.len());
                vstd::arithmetic::div_mod::lemma_small_mod((age + comb_delay) as nat, self@.len());
            }
            let combined = difference(own, earlier);
            let slot: usize = self.slot(age);
            self.buffer.set(slot, combined);
            assert(self@ =~= before.update(age as int, combined));
            age = age + 1;
        }
    }
}

/// The capacity a request is rounded up to: the smallest power of two that
/// holds it.
pub open spec fn capacity_for(requested: int) -> int {
    choose|capacity: int| #[trigger]
        is_capacity(capacity) && granted(requested) <= capacity < 2 * granted(requested)
}

/// Rounds a request up to a capacity.
pub fn rounded_capacity(requested: usize) -> (capacity: usize)
    ensures
        capacity == capacity_for(requested as int),
        is_capacity(capacity as int),
        granted(requested as int) <= capacity < 2 * granted(requested as int),
        2 <= capacity <= MAX_CAPACITY,
{
    let wanted: usize = if requested < MIN_CAPACITY {
        MIN_CAPACITY
    } else if requested > MAX_CAPACITY {
        MAX_CAPACITY
    } else {
        requested
    };
    let mut capacity: usize = MIN_CAPACITY;
    let ghost mut exponent: nat = 1;
    proof {
        vstd::arithmetic::power2::lemma2_to64();
    }
    while capacity < wanted
        invariant
            2 <= wanted <= MAX_CAPACITY,
            2 <= capacity < 2 * wanted,
            capacity == pow2(exponent),
            capacity <= MAX_CAPACITY,
            1 <= exponent <= 22,
            pow2(22) == MAX_CAPACITY,
        decreases 2 * wanted - capacity,
    {
        proof {
            lemma_pow2_unfold(exponent + 1);
            if exponent < 21 {
                vstd::arithmetic::power2::lemma_pow2_strictly_increases(exponent + 1, 22);
            }
            if exponent == 22 {
                assert(false);
            }
            exponent = exponent + 1;
        }
        capacity = capacity * 2;
    }
    assert(is_capacity(capacity as int));
    proof {
        let chosen = capacity_for(requested as int);
        let other = choose|exponent: nat|
            1 <= exponent <= 22 && chosen == #[trigger] pow2(exponent);
        lemma_at_least_double(exponent, other);
        lemma_at_least_double(other, exponent);
    }
    capacity
}

/// A larger power of two is at least twice a smaller one.
proof fn lemma_at_least_double(small: nat, large: nat)
    ensures
        small < large ==> 2 * pow2(small) <= pow2(large),
{
    if small < large {
        lemma_pow2_unfold(small + 1);
        if small + 1 < large {
            vstd::arithmetic::power2::lemma_pow2_strictly_increases(small + 1, large);
        }
    }
}

/// The remainder of a number below twice the divisor.
proof fn lemma_wrap(value: int, length: int)
    requires
        0 <= value < 2 * length,
    ensures
        value % length == if value < length { value } else { value - length },
{
    if value < length {
        vstd::arithmetic::div_mod::lemma_small_mod(value as nat, length as nat);
    } else {
        vstd::arithmetic::div_mod::lemma_mod_add_multiples_vanish(value - length, length);
        vstd::arithmetic::div_mod::lemma_small_mod((value - length) as nat, length as nat);
    }
}

/// Masking with a capacity less one takes the remainder.
proof fn lemma_mask(mask: usize, value: usize)
    requires
        is_capacity(mask + 1),
    ensures
        value & mask == value as int % (mask + 1),
        value & mask <= mask,
{
    let exponent = choose|exponent: nat|
        1 <= exponent <= 22 && mask + 1 == #[trigger] pow2(exponent);
    lemma_pow2_pos(exponent);
    vstd::bits::lemma_usize_pow2_no_overflow(exponent);
    vstd::bits::lemma_usize_low_bits_mask_is_mod(value, exponent);
    assert(vstd::bits::low_bits_mask(exponent) as usize == mask);
    assert(pow2(exponent) as usize == mask + 1);
}

} // verus!
