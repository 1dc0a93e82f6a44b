//! The filters in a string's loop: the losses a real string suffers on every
//! round trip.
//!
//! A string does not lose energy uniformly: high partials die first, which is why
//! a struck note goes from bright to mellow before it goes quiet. A filter keeps
//! its coefficients where its loop stays stable and its memory free of denormal
//! numbers; the arithmetic of one sample is handed in by the caller.
use crate::binary32::Binary32;
use crate::math;
use vstd::prelude::*;

verus! {

/// Highest usable feedback coefficient, 0.9999: at one the filter never decays,
/// and above it diverges.
pub const MAX_POLE_BITS: u32 = 0x3f7f_f972;

/// Highest zero mix, 0.5, which puts the zero at half the sample rate.
pub const MAX_ZERO_MIX_BITS: u32 = 0x3f00_0000;

/// The pole of a DC blocker whose maker does not choose one, 0.995.
pub const DC_BLOCKER_POLE_BITS: u32 = 0x3f7e_b852;

/// A pole kept where the filter is stable; a NaN is zero.
pub open spec fn stable(pole: Binary32) -> Binary32 {
    math::bounded(pole, Binary32::from_bits(0), Binary32::from_bits(MAX_POLE_BITS))
}

/// The string's loss filter: a pole, which sets how bright the string is, and a
/// zero, which takes more from the upper partials on every round trip.
#[derive(Debug, Clone, Copy, PartialEq, Eq, Structural)]
pub struct LoopFilter {
    /// How much of the output before goes into the next.
    pub pole: Binary32,
    /// How much of the input before goes into the next output.
    pub zero_mix: Binary32,
    /// The output before.
    pub state: Binary32,
    /// The input before.
    pub last_input: Binary32,
}

impl LoopFilter {
    /// Both coefficients are in range.
    pub open spec fn wf(self) -> bool {
        &&& self.pole.within(Binary32::from_bits(0), Binary32::from_bits(MAX_POLE_BITS))
        &&& self.zero_mix.within(Binary32::from_bits(0), Binary32::from_bits(MAX_ZERO_MIX_BITS))
    }

    /// Builds a filter from its two coefficients, clamped so that it is stable
    /// whatever is asked for.
    pub fn new(pole: Binary32, zero_mix: Binary32) -> (filter: Self)
        ensures
            filter.wf(),
            filter == (LoopFilter {
                pole: stable(pole),
                zero_mix: math::bounded(
                    zero_mix,
                    Binary32::from_bits(0),
                    Binary32::from_bits(MAX_ZERO_MIX_BITS),
                ),
                state: Binary32::from_bits(0),
                last_input: Binary32::from_bits(0),
            }),
    {
        LoopFilter {
            pole: clamp_pole(pole),
            zero_mix: math::clamp_or_low(
                zero_mix,
                Binary32::from_bits(0),
                Binary32::from_bits(MAX_ZERO_MIX_BITS),
            ),
            state: Binary32::from_bits(0),
            last_input: Binary32::from_bits(0),
        }
    }

    /// Processes one sample: `average` mixes the input with the one before it by
    /// the zero mix, and `smooth` mixes that with the output before by the pole.
    pub fn process<
        A: Fn(Binary32, Binary32, Binary32) -> Binary32,
        S: Fn(Binary32, Binary32, Binary32) -> Binary32,
    >(&mut self, input: Binary32, average: &A, smooth: &S) -> (output: Binary32)
        requires
            forall|new: Binary32, last: Binary32, mix: Binary32| average.requires((new, last, mix)),
            forall|new: Binary32, last: Binary32, mix: Binary32| smooth.requires((new, last, mix)),
        ensures
            is_filtered(*old(self), input, *average, *smooth, *final(self), output),
            old(self).wf() ==> final(self).wf(),
    {
        let averaged = average(input, self.last_input, self.zero_mix);
        let smoothed = smooth(averaged, self.state, self.pole);
        self.last_input = input;
        self.state = math::flush_denormal(smoothed);
        self.state
    }

    /// Changes the pole, with the same clamp as [`LoopFilter::new`] and without
    /// touching the filter's memory.
    pub fn set_pole(&mut self, pole: Binary32)
        ensures
            *final(self) == (LoopFilter { pole: stable(pole), ..*old(self) }),
            old(self).wf() ==> final(self).wf(),
    {
        self.pole = clamp_pole(pole);
    }

    /// Clears the filter's memory.
    pub fn reset(&mut self)
        ensures
            *final(self) == (LoopFilter {
                state: Binary32::from_bits(0),
                last_input: Binary32::from_bits(0),
                ..*old(self)
            }),
            old(self).wf() ==> final(self).wf(),
    {
        self.state = Binary32::from_bits(0);
        self.last_input = Binary32::from_bits(0);
    }
}

/// A filter takes `input` and gives `output`: `average` mixes the input with the one
/// before it, `smooth` mixes that with the output before, and the filter remembers
/// both.
pub open spec fn is_filtered<
    A: Fn(Binary32, Binary32, Binary32) -> Binary32,
    S: Fn(Binary32, Binary32, Binary32) -> Binary32,
>(
    before: LoopFilter,
    input: Binary32,
    average: A,
    smooth: S,
    after: LoopFilter,
    output: Binary32,
) -> bool {
    &&& exists|averaged: Binary32, smoothed: Binary32|
        {
            &&& #[trigger] average.ensures((input, before.last_input, before.zero_mix), averaged)
            &&& #[trigger] smooth.ensures((averaged, before.state, before.pole), smoothed)
            &&& output == math::flushed(smoothed)
        }
    &&& after == LoopFilter { state: output, last_input: input, ..before }
}

/// Clamps a pole to where a filter is stable.
fn clamp_pole(pole: Binary32) -> (clamped: Binary32)
    ensures
        clamped == stable(pole),
        clamped.within(Binary32::from_bits(0), Binary32::from_bits(MAX_POLE_BITS)),
{
    math::clamp_or_low(pole, Binary32::from_bits(0), Binary32::from_bits(MAX_POLE_BITS))
}

/// Whether a filter's magnitude can be worked out: the sample rate is usable and
/// the frequency finite. Everywhere else the filter counts as transparent.
pub fn has_magnitude(frequency: Binary32, sample_rate: Binary32) -> (known: bool)
    ensures
        known == (frequency.finite() && sample_rate.finite() && Binary32::from_bits(0).below(
            sample_rate,
        )),
{
    frequency.is_finite() && sample_rate.is_finite() && Binary32::from_bits(0).lt(sample_rate)
}

/// A highpass that takes out the constant offset a feedback loop accumulates.
#[derive(Debug, Clone, Copy, PartialEq, Eq, Structural)]
pub struct DcBlocker {
    /// How much of the output before goes into the next.
    pub pole: Binary32,
    /// The input before.
    pub last_input: Binary32,
    /// The output before.
    pub last_output: Binary32,
}

impl Default for DcBlocker {
    fn default() -> (blocker: Self)
        ensures
            blocker == (DcBlocker {
                pole: stable(Binary32::from_bits(DC_BLOCKER_POLE_BITS)),
                last_input: Binary32::from_bits(0),
                last_output: Binary32::from_bits(0),
            }),
    {
        DcBlocker::new(Binary32::from_bits(DC_BLOCKER_POLE_BITS))
    }
}

impl DcBlocker {
    /// Builds a blocker; the closer `pole` is to one, the more bass it leaves.
    pub fn new(pole: Binary32) -> (blocker: Self)
        ensures
            blocker == (DcBlocker {
                pole: stable(pole),
                last_input: Binary32::from_bits(0),
                last_output: Binary32::from_bits(0),
            }),
    {
        DcBlocker {
            pole: clamp_pole(pole),
            last_input: Binary32::from_bits(0),
            last_output: Binary32::from_bits(0),
        }
    }

    /// Processes one sample: `step` takes the input, the input before it, the
    /// output before it and the pole.
    pub fn process<S: Fn(Binary32, Binary32, Binary32, Binary32) -> Binary32>(
        &mut self,
        input: Binary32,
        step: &S,
    ) -> (output: Binary32)
        requires
            forall|new: Binary32, last: Binary32, output: Binary32, pole: Binary32|
                step.requires((new, last, output, pole)),
        ensures
            is_blocked(*old(self), input, *step, *final(self), output),
    {
        let output = math::flush_denormal(
            step(input, self.last_input, self.last_output, self.pole),
        );
        self.last_input = input;
        self.last_output = output;
        output
    }

    /// Clears the filter's memory.
    pub fn reset(&mut self)
        ensures
            *final(self) == (DcBlocker {
                last_input: Binary32::from_bits(0),
                last_output: Binary32::from_bits(0),
                ..*old(self)
            }),
    {
        self.last_input = Binary32::from_bits(0);
        self.last_output = Binary32::from_bits(0);
    }
}

/// A blocker takes `input` and gives `output`, and remembers both.
pub open spec fn is_blocked<S: Fn(Binary32, Binary32, Binary32, Binary32) -> Binary32>(
    before: DcBlocker,
    input: Binary32,
    step: S,
    after: DcBlocker,
    output: Binary32,
) -> bool {
    &&& exists|stepped: Binary32| #[trigger]
        step.ensures((input, before.last_input, before.last_output, before.pole), stepped)
            && output == math::flushed(stepped)
    &&& after == DcBlocker { last_input: input, last_output: output, ..before }
}

/// A filter that is cleared is a filter that is new: nothing of what it has heard
/// is left.
pub proof fn clearing_forgets(filter: LoopFilter)
    requires
        filter.wf(),
    ensures
        ({
            let cleared = LoopFilter {
                state: Binary32::from_bits(0),
                last_input: Binary32::from_bits(0),
                ..filter
            };
            cleared == LoopFilter {
                pole: stable(filter.pole),
                zero_mix: math::bounded(
                    filter.zero_mix,
                    Binary32::from_bits(0),
                    Binary32::from_bits(MAX_ZERO_MIX_BITS),
                ),
                state: Binary32::from_bits(0),
                last_input: Binary32::from_bits(0),
            }
        }),
{
}

} // verus!
