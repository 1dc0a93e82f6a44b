//! A struck string, as the keyboard and the control surface see it.
//!
//! A transverse wave travels along the string, reflects at both ends, and comes
//! back inverted and slightly quieter. The samples of that wave, and the filters
//! they pass, belong to the audio renderer. What this module holds is everything
//! that decides how they are computed: how the string is voiced, how long its
//! loop is, whether its damper rests on it, how loud it still is, and what one
//! strike writes where.
use crate::binary32::{Binary32, ONE_BITS};
use crate::delay;
use crate::delay::DelayLine;
use crate::hammer;
use crate::hammer::HammerConfig;
use crate::math;
use crate::noise::DEFAULT_SEED;
use crate::units::{Hz, ParamError, SampleRate};
use vstd::prelude::*;

verus! {

/// Shortest usable loop delay, two samples.
///
/// Below that the delay line no longer represents a travelling wave.
pub const MIN_LOOP_DELAY_BITS: u32 = 0x4000_0000;

/// How fast the envelope follower forgets per sample while a note is held,
/// 0.9995.
pub const ENVELOPE_DECAY_BITS: u32 = 0x3f7f_df3b;

/// How fast it forgets once the damper is engaged, 0.995: fast enough that a
/// released string is noticed to be silent when it is.
pub const RELEASED_ENVELOPE_DECAY_BITS: u32 = 0x3f7e_b852;

/// Below this envelope level, 1e-4, a voice is inaudible and can be skipped.
pub const SILENCE_THRESHOLD_BITS: u32 = 0x38d1_b717;

/// Extra loop-gain factor on every round trip once the damper is engaged, 0.4.
///
/// A factor rather than a replacement for the sustain, so that a released
/// string always decays at least as fast as it did before.
pub const RELEASE_LOSS_MULTIPLIER_BITS: u32 = 0x3ecc_cccd;

/// Damping of a string whose maker does not choose one, 0.5.
pub const DEFAULT_DAMPING_BITS: u32 = 0x3f00_0000;

/// Sustain of a string whose maker does not choose one, 0.996.
pub const DEFAULT_SUSTAIN_BITS: u32 = 0x3f7e_f9db;

/// Where the hammer lands by default, as a fraction of the loop length: 1/8,
/// which leaves out the dissonant eighth partial.
pub const DEFAULT_STRIKE_POSITION_BITS: u32 = 0x3e00_0000;

/// Widest strike position, 0.5: the loop's midpoint.
pub const MAX_STRIKE_POSITION_BITS: u32 = 0x3f00_0000;

/// Zero mix of the loop filter by default, 0.5.
pub const DEFAULT_LOOP_ZERO_MIX_BITS: u32 = 0x3f00_0000;

/// How much of a strike is broadband noise by default, 0.7.
pub const DEFAULT_EXCITATION_NOISE_MIX_BITS: u32 = 0x3f33_3333;

/// Inharmonicity of a string whose maker does not choose one, 0.0004.
pub const DEFAULT_INHARMONICITY_BITS: u32 = 0x39d1_b717;

/// Highest inharmonicity accepted, 0.05.
pub const MAX_INHARMONICITY_BITS: u32 = 0x3d4c_cccd;

/// A value confined to `[0, 1]`, with zero for a NaN.
pub open spec fn normalised(value: Binary32) -> Binary32 {
    math::bounded(value, Binary32::from_bits(0), Binary32::from_bits(ONE_BITS))
}

/// Within `[0, 1]`.
pub open spec fn is_normalised(value: Binary32) -> bool {
    value.within(Binary32::from_bits(0), Binary32::from_bits(ONE_BITS))
}

/// Clamps into `[0, 1]`, a NaN to zero.
pub fn normalise(value: Binary32) -> (result: Binary32)
    ensures
        result == normalised(value),
        is_normalised(result),
{
    math::clamp_or_low(value, Binary32::from_bits(0), Binary32::from_bits(ONE_BITS))
}

/// Tunable properties of a struck string.
#[derive(Debug, Clone, Copy, PartialEq, Eq, Structural)]
pub struct StringConfig {
    /// Fundamental frequency of the note.
    pub frequency: Hz,
    /// High-frequency loss per round trip, in `[0, 1]`. Higher is duller.
    pub damping: Binary32,
    /// Broadband loop gain in `[0, 1]`. Higher sustains longer.
    pub sustain: Binary32,
    /// How far upper partials sit above an exact harmonic series.
    pub inharmonicity: Binary32,
    /// Seed for the excitation noise, so renders are reproducible.
    pub seed: u32,
    /// This string's own felt-contact physics.
    pub hammer: HammerConfig,
    /// The loop filter's zero mix: extra rolloff for upper partials.
    pub loop_zero_mix: Binary32,
    /// Where the hammer strikes, as a fraction of the loop length.
    pub strike_position: Binary32,
    /// Fraction of the excitation that is broadband noise.
    pub excitation_noise_mix: Binary32,
}

/// The default voicing for `frequency`.
pub open spec fn default_config(frequency: Hz) -> StringConfig {
    StringConfig {
        frequency,
        damping: Binary32::from_bits(DEFAULT_DAMPING_BITS),
        sustain: Binary32::from_bits(DEFAULT_SUSTAIN_BITS),
        inharmonicity: Binary32::from_bits(DEFAULT_INHARMONICITY_BITS),
        seed: DEFAULT_SEED,
        hammer: hammer::default_hammer(),
        loop_zero_mix: Binary32::from_bits(DEFAULT_LOOP_ZERO_MIX_BITS),
        strike_position: Binary32::from_bits(DEFAULT_STRIKE_POSITION_BITS),
        excitation_noise_mix: Binary32::from_bits(DEFAULT_EXCITATION_NOISE_MIX_BITS),
    }
}

impl StringConfig {
    /// A reasonable default voicing for `frequency`.
    pub fn new(frequency: Hz) -> (config: Self)
        ensures
            config == default_config(frequency),
    {
        StringConfig {
            frequency,
            damping: Binary32::from_bits(DEFAULT_DAMPING_BITS),
            sustain: Binary32::from_bits(DEFAULT_SUSTAIN_BITS),
            inharmonicity: Binary32::from_bits(DEFAULT_INHARMONICITY_BITS),
            seed: DEFAULT_SEED,
            hammer: HammerConfig::default(),
            loop_zero_mix: Binary32::from_bits(DEFAULT_LOOP_ZERO_MIX_BITS),
            strike_position: Binary32::from_bits(DEFAULT_STRIKE_POSITION_BITS),
            excitation_noise_mix: Binary32::from_bits(DEFAULT_EXCITATION_NOISE_MIX_BITS),
        }
    }
}

/// What tuning a string to a sample rate comes to.
#[derive(Debug, Clone, Copy, PartialEq, Eq, Structural)]
pub struct LoopTuning {
    /// The period, in samples, less the delay of every filter in the loop and
    /// of the feedback path itself.
    pub loop_delay: Binary32,
    /// The highest fundamental the sample rate supports, in hertz.
    pub maximum: Binary32,
    /// How many samples the delay line has to hold, for the lowest frequency
    /// and the widest strike position the string can be set to live.
    pub capacity: usize,
    /// How many sections of dispersion the loop has.
    pub sections: usize,
}

/// One strike, laid out before it is written.
#[derive(Debug, Clone, Copy, PartialEq, Eq, Structural)]
pub struct StrikePlan {
    /// How many samples of excitation go into the delay line.
    pub burst_length: usize,
    /// From which sample on the strike meets its own first reflection.
    pub reflected_from: usize,
    /// How far back in the delay line that reflection then is.
    pub reflection_delay: usize,
    /// How far back the strike-position comb reaches; zero for no comb.
    pub comb_delay: usize,
}

/// A single struck string voice.
#[derive(Debug, Clone, Copy, PartialEq, Eq, Structural)]
pub struct PluckedString {
    /// The frequency the string is tuned to.
    pub frequency: Hz,
    /// High-frequency loss per round trip.
    pub damping: Binary32,
    /// The loop filter's zero mix, fixed at construction.
    pub loop_zero_mix: Binary32,
    /// Broadband loop gain.
    pub sustain: Binary32,
    /// Inharmonicity coefficient.
    pub inharmonicity: Binary32,
    /// Seed every strike's noise starts from.
    pub seed: u32,
    /// Felt-contact physics of the next strike.
    pub hammer: HammerConfig,
    /// Where the next strike lands.
    pub strike_position: Binary32,
    /// How much of the next strike is noise.
    pub excitation_noise_mix: Binary32,
    /// Length of the delay in the loop, in samples.
    pub loop_delay: Binary32,
    /// The longest delay the string's delay line can read back.
    pub max_delay: usize,
    /// How many sections of dispersion the loop has, fixed at construction.
    pub sections: usize,
    /// Whether the felt damper rests on the string.
    pub damper_engaged: bool,
    /// A cheap estimate of the current output level.
    pub envelope: Binary32,
}

/// An idle string voiced by `config` and tuned by `tuning`.
///
/// The felt damper rests on it, as on any key of a piano that is not struck.
pub open spec fn idle_string(config: StringConfig, tuning: LoopTuning) -> PluckedString {
    PluckedString {
        frequency: config.frequency,
        damping: normalised(config.damping),
        loop_zero_mix: config.loop_zero_mix,
        sustain: normalised(config.sustain),
        inharmonicity: math::bounded(
            config.inharmonicity,
            Binary32::from_bits(0),
            Binary32::from_bits(MAX_INHARMONICITY_BITS),
        ),
        seed: config.seed,
        hammer: config.hammer,
        strike_position: math::bounded(
            config.strike_position,
            Binary32::from_bits(0),
            Binary32::from_bits(MAX_STRIKE_POSITION_BITS),
        ),
        excitation_noise_mix: normalised(config.excitation_noise_mix),
        loop_delay: loop_within(
            tuning.loop_delay,
            delay::capacity_for(tuning.capacity as int) - 1,
        ),
        max_delay: (delay::capacity_for(tuning.capacity as int) - 1) as usize,
        sections: tuning.sections,
        damper_engaged: true,
        envelope: Binary32::from_bits(0),
    }
}

/// A loop delay, kept inside what a line that reads back up to `max_delay` can hold.
pub open spec fn loop_within(delay: Binary32, max_delay: int) -> Binary32 {
    math::bounded(
        delay,
        Binary32::from_bits(MIN_LOOP_DELAY_BITS),
        Binary32::natural(max_delay - 1),
    )
}

/// Keeps a loop delay inside what a line that reads back up to `max_delay` can hold.
fn keep_loop_within(delay: Binary32, max_delay: usize) -> (kept: Binary32)
    requires
        1 <= max_delay < delay::MAX_CAPACITY,
    ensures
        kept == loop_within(delay, max_delay as int),
        0 <= kept.whole() <= max_delay + 1,
        max_delay >= 3 ==> kept.within(
            Binary32::from_bits(MIN_LOOP_DELAY_BITS),
            Binary32::natural(max_delay - 1),
        ),
{
    let shortest = Binary32::from_bits(MIN_LOOP_DELAY_BITS);
    let longest: Binary32 = Binary32::from_natural((max_delay - 1) as u32);
    proof {
        crate::binary32::lemma_two(shortest);
        crate::binary32::order_is_numeric(longest, shortest);
        if max_delay >= 3 {
            vstd::arithmetic::mul::lemma_mul_inequality(
                2,
                max_delay - 1,
                vstd::arithmetic::power2::pow2(149) as int,
            );
        }
    }
    let kept = math::clamp_or_low(delay, shortest, longest);
    proof {
        let zero = Binary32::from_bits(0);
        vstd::arithmetic::power2::lemma_pow2_pos(149);
        vstd::arithmetic::mul::lemma_mul_nonnegative(
            max_delay - 1,
            vstd::arithmetic::power2::pow2(149) as int,
        );
        crate::binary32::order_is_numeric(zero, longest);
        crate::binary32::order_is_numeric(zero, shortest);
        crate::binary32::order_is_numeric(zero, kept);
        crate::binary32::order_is_numeric(shortest, kept);
        assert(zero.units() == 0);
        if kept == shortest {
            crate::binary32::lemma_whole_bounded(kept, shortest, 2);
        } else {
            crate::binary32::lemma_whole_bounded(kept, longest, (max_delay - 1) as nat);
        }
    }
    kept
}

/// `after` is `before` with its loop as long as `retuned` says for such a string.
pub open spec fn is_retuned<R: Fn(PluckedString) -> Binary32>(
    before: PluckedString,
    retuned: R,
    after: PluckedString,
) -> bool {
    exists|delay: Binary32| #[trigger]
        retuned.ensures((before,), delay) && after == before.tuned(delay)
}

/// The loop of `tuning` is too short for any string.
pub open spec fn too_short(tuning: LoopTuning) -> bool {
    tuning.loop_delay.below(Binary32::from_bits(MIN_LOOP_DELAY_BITS))
}

/// Why a string cannot be built: the loop would be shorter than two samples.
pub open spec fn unrepresentable(
    config: StringConfig,
    sample_rate: SampleRate,
    tuning: LoopTuning,
) -> ParamError {
    ParamError::FrequencyOutOfRange {
        frequency: config.frequency.value(),
        sample_rate: sample_rate.value(),
        maximum: tuning.maximum,
    }
}

impl PluckedString {
    /// Every live parameter is inside its range.
    pub open spec fn wf(self) -> bool {
        &&& is_normalised(self.damping)
        &&& is_normalised(self.sustain)
        &&& is_normalised(self.excitation_noise_mix)
        &&& self.inharmonicity.within(
            Binary32::from_bits(0),
            Binary32::from_bits(MAX_INHARMONICITY_BITS),
        )
        &&& self.strike_position.within(
            Binary32::from_bits(0),
            Binary32::from_bits(MAX_STRIKE_POSITION_BITS),
        )
        &&& 1 <= self.max_delay < delay::MAX_CAPACITY
        &&& 0 <= self.loop_delay.whole() <= self.max_delay + 1
    }

    /// The string with a loop `delay` long, as far as its line goes.
    pub open spec fn tuned(self, delay: Binary32) -> Self {
        PluckedString { loop_delay: loop_within(delay, self.max_delay as int), ..self }
    }

    /// The string with another damping.
    pub open spec fn damped_by(self, damping: Binary32) -> Self {
        PluckedString { damping: normalised(damping), ..self }
    }

    /// The string with another sustain.
    pub open spec fn sustained_by(self, sustain: Binary32) -> Self {
        PluckedString { sustain: normalised(sustain), ..self }
    }

    /// The string with another inharmonicity.
    pub open spec fn stiffened_by(self, inharmonicity: Binary32) -> Self {
        PluckedString {
            inharmonicity: math::bounded(
                inharmonicity,
                Binary32::from_bits(0),
                Binary32::from_bits(MAX_INHARMONICITY_BITS),
            ),
            ..self
        }
    }

    /// The string just struck.
    pub open spec fn plucked(self, velocity: Binary32) -> Self {
        PluckedString { envelope: normalised(velocity), damper_engaged: false, ..self }
    }

    /// The string with its damper down.
    pub open spec fn released(self) -> Self {
        PluckedString { damper_engaged: true, ..self }
    }

    /// The string with its damper up.
    pub open spec fn lifted(self) -> Self {
        PluckedString { damper_engaged: false, ..self }
    }

    /// The string has decayed below audibility.
    pub open spec fn silent(self) -> bool {
        self.envelope.below(Binary32::from_bits(SILENCE_THRESHOLD_BITS))
    }

    /// What the envelope is multiplied by on every sample.
    pub open spec fn decay_rate(self) -> Binary32 {
        Binary32::from_bits(
            if self.damper_engaged {
                RELEASED_ENVELOPE_DECAY_BITS
            } else {
                ENVELOPE_DECAY_BITS
            },
        )
    }

    /// The string after one sample `output`: its level is the louder of that
    /// sample and what is left of the level before.
    pub open spec fn tracking(self, output: Binary32, decayed: Binary32) -> Self {
        let magnitude = Binary32::from_bits(output.magnitude() as u32);
        PluckedString {
            envelope: math::flushed(
                if decayed.below(magnitude) {
                    magnitude
                } else {
                    decayed
                },
            ),
            ..self
        }
    }

    /// Builds a string voiced by `config`, for a loop tuned as `tuning` says.
    ///
    /// Fails when the requested fundamental is too high to be represented: the
    /// loop would need fewer than two samples of delay.
    pub fn new(config: StringConfig, sample_rate: SampleRate, tuning: LoopTuning) -> (result:
        Result<Self, ParamError>)
        ensures
            too_short(tuning) ==> result == Err::<Self, ParamError>(
                unrepresentable(config, sample_rate, tuning),
            ),
            !too_short(tuning) ==> result == Ok::<Self, ParamError>(idle_string(config, tuning)),
            !too_short(tuning) ==> idle_string(config, tuning).wf(),
            !too_short(tuning) ==> result->Ok_0.max_delay == delay::capacity_for(
                tuning.capacity as int,
            ) - 1,
    {
        let zero = Binary32::from_bits(0);
        let max_delay: usize = delay::rounded_capacity(tuning.capacity) - 1;
        if tuning.loop_delay.lt(Binary32::from_bits(MIN_LOOP_DELAY_BITS)) {
            return Err(
                ParamError::FrequencyOutOfRange {
                    frequency: config.frequency.hertz(),
                    sample_rate: sample_rate.hertz(),
                    maximum: tuning.maximum,
                },
            );
        }
        Ok(
            PluckedString {
                frequency: config.frequency,
                damping: normalise(config.damping),
                loop_zero_mix: config.loop_zero_mix,
                sustain: normalise(config.sustain),
                inharmonicity: math::clamp_or_low(
                    config.inharmonicity,
                    zero,
                    Binary32::from_bits(MAX_INHARMONICITY_BITS),
                ),
                seed: config.seed,
                hammer: config.hammer,
                strike_position: math::clamp_or_low(
                    config.strike_position,
                    zero,
                    Binary32::from_bits(MAX_STRIKE_POSITION_BITS),
                ),
                excitation_noise_mix: normalise(config.excitation_noise_mix),
                loop_delay: keep_loop_within(tuning.loop_delay, max_delay),
                max_delay,
                sections: tuning.sections,
                damper_engaged: true,
                envelope: zero,
            },
        )
    }

    /// Adjusts the high-frequency loss for every future round trip.
    ///
    /// `damping` is clamped into `[0, 1]`. The loss filter's own delay is part of the
    /// loop, so the loop is retuned: `retuned` works out how long it has to be for
    /// the pitch to stay.
    pub fn set_damping<R: Fn(PluckedString) -> Binary32>(&mut self, damping: Binary32, retuned: &R)
        requires
            old(self).wf(),
            forall|string: PluckedString| retuned.requires((string,)),
        ensures
            is_retuned(old(self).damped_by(damping), *retuned, *final(self)),
            final(self).wf(),
    {
        self.damping = normalise(damping);
        self.retune(retuned);
    }

    /// Adjusts the broadband loop gain for every future round trip.
    pub fn set_sustain(&mut self, sustain: Binary32)
        ensures
            *final(self) == old(self).sustained_by(sustain),
            old(self).wf() ==> final(self).wf(),
    {
        self.sustain = normalise(sustain);
    }

    /// Adjusts the inharmonicity coefficient for every future round trip. Like
    /// [`PluckedString::set_damping`], this moves a delay inside the loop, so the loop
    /// is retuned.
    pub fn set_inharmonicity<R: Fn(PluckedString) -> Binary32>(
        &mut self,
        inharmonicity: Binary32,
        retuned: &R,
    )
        requires
            old(self).wf(),
            forall|string: PluckedString| retuned.requires((string,)),
        ensures
            is_retuned(old(self).stiffened_by(inharmonicity), *retuned, *final(self)),
            final(self).wf(),
    {
        self.inharmonicity =
        math::clamp_or_low(
            inharmonicity,
            Binary32::from_bits(0),
            Binary32::from_bits(MAX_INHARMONICITY_BITS),
        );
        self.retune(retuned);
    }

    /// Tunes the string to `frequency`, without a longer delay line: a request beyond
    /// what the line holds costs accuracy of pitch, never a read outside the line.
    pub fn set_frequency<R: Fn(PluckedString) -> Binary32>(&mut self, frequency: Hz, retuned: &R)
        requires
            old(self).wf(),
            forall|string: PluckedString| retuned.requires((string,)),
        ensures
            is_retuned((PluckedString { frequency, ..*old(self) }), *retuned, *final(self)),
            final(self).wf(),
    {
        self.frequency = frequency;
        self.retune(retuned);
    }

    /// Makes the loop as long as `retuned` says for this string: its period, less the
    /// delay of every filter in the loop.
    pub fn retune<R: Fn(PluckedString) -> Binary32>(&mut self, retuned: &R)
        requires
            old(self).wf(),
            forall|string: PluckedString| retuned.requires((string,)),
        ensures
            is_retuned(*old(self), *retuned, *final(self)),
            final(self).wf(),
    {
        let delay = retuned(*self);
        assert(retuned.ensures((*old(self),), delay));
        self.retune_loop_delay(delay);
    }

    /// Moves the loop delay to `retuned`, kept inside what the delay line can hold.
    pub fn retune_loop_delay(&mut self, retuned: Binary32)
        requires
            old(self).wf(),
        ensures
            *final(self) == old(self).tuned(retuned),
            final(self).wf(),
            final(self).max_delay >= 3 ==> final(self).loop_delay.within(
                Binary32::from_bits(MIN_LOOP_DELAY_BITS),
                Binary32::natural(old(self).max_delay - 1),
            ),
    {
        self.loop_delay = keep_loop_within(retuned, self.max_delay);
    }

    /// Reseeds the excitation noise used by every future strike. A string
    /// already ringing is unaffected.
    pub fn set_seed(&mut self, seed: u32)
        ensures
            *final(self) == (PluckedString { seed, ..*old(self) }),
            old(self).wf() ==> final(self).wf(),
    {
        self.seed = seed;
    }

    /// Changes the felt-contact physics used by the next strike.
    pub fn set_hammer(&mut self, hammer: HammerConfig)
        ensures
            *final(self) == (PluckedString { hammer, ..*old(self) }),
            old(self).wf() ==> final(self).wf(),
    {
        self.hammer = hammer;
    }

    /// Moves where the next strike lands, as a fraction of the loop length. A
    /// NaN means no comb at all.
    pub fn set_strike_position(&mut self, strike_position: Binary32)
        ensures
            *final(self) == (PluckedString {
                strike_position: math::bounded(
                    strike_position,
                    Binary32::from_bits(0),
                    Binary32::from_bits(MAX_STRIKE_POSITION_BITS),
                ),
                ..*old(self)
            }),
            old(self).wf() ==> final(self).wf(),
    {
        self.strike_position =
        math::clamp_or_low(
            strike_position,
            Binary32::from_bits(0),
            Binary32::from_bits(MAX_STRIKE_POSITION_BITS),
        );
    }

    /// Sets how much of the next strike is noise. A NaN means none.
    pub fn set_excitation_noise_mix(&mut self, mix: Binary32)
        ensures
            *final(self) == (PluckedString { excitation_noise_mix: normalised(mix), ..*old(self) }),
            old(self).wf() ==> final(self).wf(),
    {
        self.excitation_noise_mix = normalise(mix);
    }

    /// Takes note of a strike: the hammer lifts the damper, and the level starts
    /// from the strike's. Returns the velocity the excitation is written with,
    /// clamped into `[0, 1]`.
    pub fn mark_struck(&mut self, velocity: Binary32) -> (clamped: Binary32)
        ensures
            *final(self) == old(self).plucked(velocity),
            clamped == normalised(velocity),
            old(self).wf() ==> final(self).wf(),
    {
        let clamped = normalise(velocity);
        self.envelope = clamped;
        self.damper_engaged = false;
        clamped
    }

    /// The excitation of one strike, laid out.
    pub open spec fn plan(self, comb_reach: Binary32) -> StrikePlan {
        let whole = self.loop_delay.whole();
        let room = if whole + 1 >= self.max_delay {
            0
        } else {
            self.max_delay - (whole + 1)
        };
        StrikePlan {
            burst_length: (whole + 1) as usize,
            reflected_from: whole as usize,
            reflection_delay: if whole == 0 {
                0
            } else {
                (whole - 1) as usize
            },
            comb_delay: if comb_reach.whole() > room {
                room as usize
            } else {
                comb_reach.whole() as usize
            },
        }
    }

    /// Lays out the excitation of one strike.
    ///
    /// `comb_reach` is the strike position times the loop length, plus a half,
    /// in samples. The burst fills one loop length; the comb never reaches past
    /// the far end of the delay line.
    pub fn plan_strike(&self, comb_reach: Binary32) -> (plan: StrikePlan)
        requires
            self.wf(),
        ensures
            plan == self.plan(comb_reach),
            plan.burst_length == self.loop_delay.whole() + 1,
            plan.reflected_from == self.loop_delay.whole(),
            plan.reflection_delay == if self.loop_delay.whole() == 0 {
                0
            } else {
                self.loop_delay.whole() - 1
            },
            plan.comb_delay == if plan.burst_length >= self.max_delay {
                0
            } else if comb_reach.whole() > self.max_delay - plan.burst_length {
                self.max_delay - plan.burst_length
            } else {
                comb_reach.whole()
            },
            plan.comb_delay > 0 ==> plan.burst_length + plan.comb_delay <= self.max_delay,
    {
        proof {
            crate::binary32::lemma_whole_non_negative(comb_reach);
            crate::binary32::lemma_whole_non_negative(self.loop_delay);
        }
        let whole: usize = self.loop_delay.truncate();
        let burst_length: usize = whole + 1;
        let room: usize = if burst_length >= self.max_delay {
            0
        } else {
            self.max_delay - burst_length
        };
        let wanted: usize = comb_reach.truncate();
        StrikePlan {
            burst_length,
            reflected_from: whole,
            reflection_delay: if whole == 0 {
                0
            } else {
                whole - 1
            },
            comb_delay: if wanted > room {
                room
            } else {
                wanted
            },
        }
    }

    /// Engages the damper: from here on every round trip loses extra energy.
    /// Idempotent.
    pub fn release(&mut self)
        ensures
            *final(self) == old(self).released(),
            old(self).wf() ==> final(self).wf(),
    {
        self.damper_engaged = true;
    }

    /// Lifts the damper without a strike, as the sustain pedal does. Idempotent.
    pub fn lift_damper(&mut self)
        ensures
            *final(self) == old(self).lifted(),
            old(self).wf() ==> final(self).wf(),
    {
        self.damper_engaged = false;
    }

    /// Whether the felt damper currently rests on the string.
    pub fn damper_engaged(&self) -> (engaged: bool)
        ensures
            engaged == self.damper_engaged,
    {
        self.damper_engaged
    }

    /// `gain` is how much of a wave survives one round trip: the sustain, less what
    /// the damper takes where it is down.
    pub open spec fn survives<P: Fn(Binary32, Binary32) -> Binary32>(
        self,
        times: P,
        gain: Binary32,
    ) -> bool {
        if self.damper_engaged {
            times.ensures(
                (self.sustain, Binary32::from_bits(RELEASE_LOSS_MULTIPLIER_BITS)),
                gain,
            )
        } else {
            gain == self.sustain
        }
    }

    /// How much of a wave survives one round trip.
    pub fn loop_gain<P: Fn(Binary32, Binary32) -> Binary32>(&self, times: &P) -> (gain: Binary32)
        requires
            forall|left: Binary32, right: Binary32| times.requires((left, right)),
        ensures
            self.survives(*times, gain),
    {
        if self.damper_engaged {
            times(self.sustain, Binary32::from_bits(RELEASE_LOSS_MULTIPLIER_BITS))
        } else {
            self.sustain
        }
    }

    /// What the envelope is multiplied by on every sample.
    pub fn envelope_decay(&self) -> (decay: Binary32)
        ensures
            decay == self.decay_rate(),
    {
        if self.damper_engaged {
            Binary32::from_bits(RELEASED_ENVELOPE_DECAY_BITS)
        } else {
            Binary32::from_bits(ENVELOPE_DECAY_BITS)
        }
    }

    /// Follows the level of the output: `output` is the sample just produced,
    /// `decayed` the envelope times [`PluckedString::envelope_decay`]. The
    /// louder of the two stays, and inaudible levels become zero.
    pub fn track_envelope(&mut self, output: Binary32, decayed: Binary32)
        ensures
            *final(self) == old(self).tracking(output, decayed),
            old(self).wf() ==> final(self).wf(),
            !decayed.nan() ==> !final(self).envelope.nan(),
    {
        let magnitude = output.abs();
        self.envelope =
        math::flush_denormal(
            if decayed.lt(magnitude) {
                magnitude
            } else {
                decayed
            },
        );
    }

    /// Completes one sample of the string: writes back what is reflected, and
    /// follows the level of `output`.
    ///
    /// `reflect` works out what is reflected from the string's own signal, which may
    /// be `mixed` with that of its neighbours, what a bridge drives into it, how
    /// much of a wave survives a round trip, and what a hammer that is still on the
    /// string pushes. Inaudible magnitudes are written as zero.
    pub fn write_mixed_feedback<
        P: Fn(Binary32, Binary32) -> Binary32,
        R: Fn(Binary32, Binary32, Binary32, Binary32) -> Binary32,
    >(
        &mut self,
        line: &mut DelayLine<Binary32>,
        mixed: Binary32,
        coupling: Binary32,
        pushed: Binary32,
        output: Binary32,
        times: &P,
        reflect: &R,
    )
        requires
            old(line).wf(),
            forall|left: Binary32, right: Binary32| times.requires((left, right)),
            forall|mixed: Binary32, coupling: Binary32, gain: Binary32, pushed: Binary32|
                reflect.requires((mixed, coupling, gain, pushed)),
        ensures
            final(line).wf(),
            final(line).silence() == old(line).silence(),
            is_reflected(
                *old(self),
                old(line)@,
                mixed,
                coupling,
                pushed,
                *times,
                *reflect,
                final(line)@,
            ),
            is_followed(*old(self), output, *times, *final(self)),
            old(self).wf() ==> final(self).wf(),
    {
        let gain = self.loop_gain(times);
        let reflected = reflect(mixed, coupling, gain, pushed);
        line.write(math::flush_denormal(reflected));
        assert(self.survives(*times, gain));
        assert(reflect.ensures((mixed, coupling, gain, pushed), reflected));
        let decayed = times(self.envelope, self.envelope_decay());
        assert(times.ensures((old(self).envelope, old(self).decay_rate()), decayed));
        self.track_envelope(output, decayed);
    }

    /// A cheap estimate of the current output level.
    pub fn envelope(&self) -> (envelope: Binary32)
        ensures
            envelope == self.envelope,
    {
        self.envelope
    }

    /// Whether the string has decayed below audibility.
    pub fn is_silent(&self) -> (silent: bool)
        ensures
            silent == self.silent(),
    {
        self.envelope.lt(Binary32::from_bits(SILENCE_THRESHOLD_BITS))
    }

    /// The tuned loop length in samples.
    pub fn loop_delay(&self) -> (delay: Binary32)
        ensures
            delay == self.loop_delay,
    {
        self.loop_delay
    }
}

/// `after` is what the delay line `before` of `string` holds after what is reflected
/// has been written back.
pub open spec fn is_reflected<
    P: Fn(Binary32, Binary32) -> Binary32,
    R: Fn(Binary32, Binary32, Binary32, Binary32) -> Binary32,
>(
    string: PluckedString,
    before: Seq<Binary32>,
    mixed: Binary32,
    coupling: Binary32,
    pushed: Binary32,
    times: P,
    reflect: R,
    after: Seq<Binary32>,
) -> bool {
    exists|gain: Binary32, reflected: Binary32|
        {
            &&& #[trigger] string.survives(times, gain)
            &&& #[trigger] reflect.ensures((mixed, coupling, gain, pushed), reflected)
            &&& after == seq![math::flushed(reflected)] + before.drop_last()
        }
}

/// `after` is `before` with its level following `output`.
pub open spec fn is_followed<P: Fn(Binary32, Binary32) -> Binary32>(
    before: PluckedString,
    output: Binary32,
    times: P,
    after: PluckedString,
) -> bool {
    exists|decayed: Binary32| #[trigger]
        times.ensures((before.envelope, before.decay_rate()), decayed) && after
            == before.tracking(output, decayed)
}

} // verus!
