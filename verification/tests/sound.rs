//! The instrument, played: the library's decisions with the arithmetic of the
//! samples around them.

use piano::binary32::Binary32;
use piano::bridge::BridgeBus;
use piano::building::{build_note, build_string};
use piano::commands::Command;
use piano::coupling::Feedback;
use piano::dispersion::{coefficient_from_inharmonicity, section_count, DispersionCascade};
use piano::engine::{Engine, BRIDGE_BLOCK_SAMPLES, MAX_COMMANDS_PER_CALLBACK};
use piano::excitation::slope_scale;
use piano::filter::{has_magnitude, DcBlocker, LoopFilter};
use piano::hammer::{
    integration_rate, sanitize_hammer, simulate_contact, HammerConfig, PendingContact,
    MAX_COMPRESSION_BITS, MAX_CONTACT_SAMPLES,
};
use piano::math::{clamp_or_low, flush_denormal};
use piano::noise::Xorshift32;
use piano::params::{PianoKey, Tuning, HIGHEST_PIANO_KEY, KEY_COUNT, LOWEST_PIANO_KEY};
use piano::playing::Settings;
use piano::render::{apply_fade_out, duration_to_samples, FADE_OUT_SECONDS_BITS};
use piano::rounding::bipolar;
use piano::session::AudioSession;
use piano::soundboard::{ResonatorBank, Soundboard, SoundboardMode};
use piano::sounding::Arithmetic;
use piano::striking::Hammers;
use piano::string::{normalise, PluckedString, StringConfig};
use piano::unison::UnisonGroup;
use piano::units::{Hz, ParamError, SampleRate};
use piano::voicing::{
    config_for_key, decay_targets_for, inharmonicity_for, resolve_anchors, solve_loop_losses,
    unison_count_for_key, voicing_for_key_with_registers, AnchorPitches, DecayTargets, KeyVoicing,
    LoopLosses, Point, RegisterOverrides,
};
use piano::waveguide::Waveguide;
use std::marker::PhantomData;

/// A number of the library's, to compute with.
pub fn number(value: Binary32) -> f32 {
    f32::from_bits(value.to_bits())
}

/// A number computed, for the library.
pub fn bits(value: f32) -> Binary32 {
    Binary32::from_bits(value.to_bits())
}

fn zero() -> Binary32 {
    Binary32::from_bits(0)
}

// Floating point: the arithmetic of single samples.

fn plus(left: Binary32, right: Binary32) -> Binary32 {
    bits(number(left) + number(right))
}

fn minus(left: Binary32, right: Binary32) -> Binary32 {
    bits(number(left) - number(right))
}

pub fn times(left: Binary32, right: Binary32) -> Binary32 {
    bits(number(left) * number(right))
}

pub fn over(left: Binary32, right: Binary32) -> Binary32 {
    bits(number(left) / number(right))
}

fn mean(sum: Binary32, count: usize) -> Binary32 {
    bits(number(sum) / count as f32)
}

/// A convex combination, bounded by what it combines.
fn blend(own: Binary32, other: Binary32, weight: Binary32) -> Binary32 {
    let weight = number(normalise(weight));
    bits(number(own) + weight * (number(other) - number(own)))
}

pub fn power(base: Binary32, exponent: Binary32) -> Binary32 {
    bits(number(base).powf(number(exponent)))
}

/// Compresses a magnitude above `threshold` into what is left up to full scale.
pub fn saturate(magnitude: Binary32, threshold: Binary32) -> Binary32 {
    let threshold = number(threshold);
    let headroom = 1.0 - threshold;
    bits(threshold + headroom * ((number(magnitude) - threshold) / headroom).tanh())
}

// Floating point: the filters of a string's loop.

fn average(input: Binary32, last: Binary32, mix: Binary32) -> Binary32 {
    let mix = number(mix);
    bits((1.0 - mix) * number(input) + mix * number(last))
}

fn smooth(averaged: Binary32, state: Binary32, pole: Binary32) -> Binary32 {
    let pole = number(pole);
    bits((1.0 - pole) * number(averaged) + pole * number(state))
}

/// Filters one sample of a loop.
pub fn filter_sample(filter: &mut LoopFilter, input: f32) -> f32 {
    number(filter.process(bits(input), &average, &smooth))
}

/// The delay a loop filter adds at low frequencies, in samples.
pub fn filter_phase_delay(filter: &LoopFilter) -> f32 {
    let pole = number(filter.pole);
    number(filter.zero_mix) + pole / (1.0 - pole)
}

/// How much of a frequency's amplitude survives one pass through the filter.
pub fn magnitude_at(filter: &LoopFilter, frequency: f32, sample_rate: f32) -> f32 {
    if !has_magnitude(bits(frequency), bits(sample_rate)) {
        return 1.0;
    }
    let omega = std::f32::consts::TAU * frequency / sample_rate;
    let (pole, mix) = (number(filter.pole), number(filter.zero_mix));
    let shape = 4.0 * mix * (1.0 - mix);
    let half = (omega / 2.0).sin();
    let zero_gain = (1.0 - shape * half * half).max(0.0).sqrt();
    let pole_term = 1.0 - 2.0 * pole * omega.cos() + pole * pole;
    if pole_term <= 0.0 {
        return 1.0;
    }
    number(normalise(bits(zero_gain * (1.0 - pole) / pole_term.sqrt())))
}

fn block_dc(input: Binary32, last: Binary32, output: Binary32, pole: Binary32) -> Binary32 {
    bits(number(input) - number(last) + number(pole) * number(output))
}

/// Takes the offset out of one sample.
pub fn block_sample(blocker: &mut DcBlocker, input: f32) -> f32 {
    number(blocker.process(bits(input), &block_dc))
}

/// How many allpass sections the register of a frequency asks for.
pub fn wanted_sections(frequency: Binary32) -> Binary32 {
    let octaves = (number(frequency) / 27.5).ln() / std::f32::consts::LN_2;
    bits(8.0 - 1.5 * octaves)
}

/// How far a section bends for an inharmonicity.
pub fn bend(inharmonicity: Binary32) -> Binary32 {
    bits(-200.0 * number(inharmonicity))
}

fn feed(input: Binary32, coefficient: Binary32, state: Binary32) -> Binary32 {
    bits(number(input) - number(coefficient) * number(state))
}

fn emit(coefficient: Binary32, next: Binary32, state: Binary32) -> Binary32 {
    bits(number(coefficient) * number(next) + number(state))
}

/// Runs one sample through a cascade.
pub fn disperse_sample(cascade: &mut DispersionCascade, input: f32) -> f32 {
    number(cascade.process(bits(input), &feed, &emit))
}

/// The delay `sections` sections of a cascade add at low frequencies, in samples.
pub fn sections_phase_delay(sections: usize, coefficient: Binary32) -> f32 {
    let coefficient = number(coefficient);
    sections as f32 * (1.0 - coefficient) / (1.0 + coefficient)
}

// Floating point: the hammer.

/// Slowest hammer, in metres per second.
const MIN_STRIKE_MPS: f32 = 0.5;

/// Fastest hammer, in metres per second.
const MAX_STRIKE_MPS: f32 = 6.0;

/// How many one-pole sections shape the spectrum of a strike.
const EXCITATION_POLES: usize = 2;

/// The corner of those sections, times the duration of the contact.
const EXCITATION_CORNER: f32 = 15.0;

/// A hammer on its way through a contact.
#[derive(Debug, Clone, Copy)]
pub struct HammerState {
    /// How far the felt is compressed.
    pub compression: f32,
    /// How fast the hammer moves towards the string.
    pub velocity: f32,
    /// Whether it has left the string.
    pub separated: bool,
    shape: f32,
    felt: [f32; EXCITATION_POLES],
    strike: Strike,
}

/// What does not change during one strike.
#[derive(Debug, Clone, Copy)]
pub struct Strike {
    exponent: f32,
    stiffness: f32,
    mass: f32,
    interval: f32,
    peak: f32,
    inverse_slope: f32,
    velocity: f32,
    noise_mix: f32,
    felt_pole: f32,
}

impl Strike {
    fn force(&self, compression: f32) -> f32 {
        self.stiffness * compression.powf(self.exponent)
    }

    /// One step of a hammer against a string that moves at `incoming`: the felt
    /// pushes the hammer back, and gives way by how fast the two approach.
    pub fn couple(&self, state: HammerState, incoming: f32) -> (HammerState, f32) {
        if state.separated {
            return (state, 0.0);
        }
        let mut next = state;
        next.velocity -= self.force(state.compression) / self.mass * self.interval;
        let compression = state.compression + (next.velocity - incoming) * self.interval;
        next.compression = number(clamp_or_low(
            bits(compression),
            zero(),
            Binary32::from_bits(MAX_COMPRESSION_BITS),
        ));
        next.separated = next.compression <= 0.0;
        (next, self.force(next.compression))
    }

    /// One sample of excitation: the slope of the force, blended with noise shaped
    /// by the force, through the felt's own rolloff.
    pub fn step(
        &self,
        state: HammerState,
        incoming: Binary32,
        drawn: Binary32,
    ) -> (HammerState, Binary32) {
        let (mut next, force) = self.couple(state, number(incoming));
        let shape = if self.peak > f32::EPSILON { force / self.peak } else { 0.0 };
        let slope = (shape - state.shape) * self.inverse_slope;
        let noisy = number(drawn) * shape;
        let mut sample = (slope + self.noise_mix * (noisy - slope)) * self.velocity;
        for stage in &mut next.felt {
            *stage = number(flush_denormal(bits(
                (1.0 - self.felt_pole) * sample + self.felt_pole * *stage,
            )));
            sample = *stage;
        }
        next.shape = shape;
        (next, bits(sample))
    }
}

fn begin(velocity: Binary32) -> f32 {
    strike_speed(number(velocity))
}

/// One step of a hammer against a string that does not move.
fn advance(
    hammer: HammerConfig,
    rate: Binary32,
    velocity: f32,
    compression: Binary32,
) -> (f32, Binary32) {
    let interval = 1.0 / number(rate);
    let force = number(felt_force(hammer, compression));
    let slowed = velocity - force / number(hammer.mass) * interval;
    (slowed, bits(number(compression) + slowed * interval))
}

/// What a hammer's felt pushes back with.
fn felt_force(hammer: HammerConfig, compression: Binary32) -> Binary32 {
    bits(number(hammer.stiffness) * number(compression).powf(number(hammer.contact_exponent)))
}

fn strike_speed(velocity: f32) -> f32 {
    MIN_STRIKE_MPS + number(normalise(bits(velocity))) * (MAX_STRIKE_MPS - MIN_STRIKE_MPS)
}

fn invert(value: Binary32) -> Binary32 {
    bits(1.0 / number(value))
}

/// The hammer, one sample on.
fn step(state: HammerState, incoming: Binary32, drawn: Binary32) -> (HammerState, Binary32) {
    state.strike.step(state, incoming, drawn)
}

fn has_left(state: HammerState) -> bool {
    state.separated
}

/// The pole of a one-pole lowpass whose corner, as a fraction of the sample rate,
/// the duration of a contact sets.
fn felt_pole(contact_samples: usize) -> f32 {
    let corner = EXCITATION_CORNER / (contact_samples.max(1) as f32);
    (-std::f32::consts::TAU * corner.min(0.45)).exp()
}

// Floating point: one string.

/// How far below its own frequency a string can be tuned live, in cents.
pub const MAX_LIVE_DETUNE_CENTS: f32 = 100.0;

/// What a string holds.
pub type Path = Waveguide<HammerState>;

/// What arrives at the bridge end, between two samples, by an allpass.
fn interpolate(
    delay: Binary32,
    newer: Binary32,
    earlier: Binary32,
    later: Binary32,
    last: Binary32,
) -> Binary32 {
    let delay = number(delay);
    let whole = delay.trunc();
    let fraction = delay - whole;
    let (near, far, fraction) = if fraction < 0.5 && whole > 0.0 {
        (newer, earlier, fraction + 1.0)
    } else {
        (earlier, later, fraction)
    };
    let coefficient = (1.0 - fraction) / (1.0 + fraction);
    bits(number(far) + coefficient * (number(near) - number(last)))
}

/// The arithmetic of a string's samples, as the library takes it.
pub fn arithmetic() -> Arithmetic<
    HammerState,
    impl Fn(Binary32, Binary32, Binary32, Binary32, Binary32) -> Binary32,
    impl Fn(Binary32, Binary32, Binary32) -> Binary32,
    impl Fn(Binary32, Binary32, Binary32) -> Binary32,
    impl Fn(Binary32, Binary32, Binary32) -> Binary32,
    impl Fn(Binary32, Binary32, Binary32) -> Binary32,
    impl Fn(HammerState, Binary32, Binary32) -> (HammerState, Binary32),
    impl Fn(HammerState) -> bool,
    impl Fn(Binary32, Binary32, Binary32, Binary32) -> Binary32,
    impl Fn(Binary32, Binary32) -> Binary32,
    impl Fn(Binary32, Binary32, Binary32, Binary32) -> Binary32,
    impl Fn(Binary32, Binary32) -> Binary32,
    impl Fn(Binary32, Binary32) -> Binary32,
    impl Fn(Binary32, usize) -> Binary32,
    impl Fn(Binary32, Binary32, Binary32) -> Binary32,
> {
    Arithmetic {
        interpolate,
        average,
        smooth,
        feed,
        emit,
        step,
        has_left,
        block: block_dc,
        times,
        reflect,
        plus,
        minus,
        quotient: mean,
        blend,
        hammer: PhantomData,
    }
}

/// How many samples the line of a string has to hold: for the lowest frequency it can
/// be set to live, and for the widest strike position.
pub fn line_capacity(config: StringConfig, rate: f32) -> usize {
    let lowest = number(config.frequency.hertz()) * 2.0f32.powf(-MAX_LIVE_DETUNE_CENTS / 1200.0);
    (rate / lowest * 1.5) as usize + 4
}

/// The highest fundamental a rate supports.
pub fn highest_fundamental(rate: f32) -> Binary32 {
    bits(rate / 3.0)
}

/// How long a loop is beside its delay: what its filters and the feedback path add,
/// in samples.
pub fn filters_delay(string: &PluckedString) -> f32 {
    let filter = LoopFilter::new(string.damping, string.loop_zero_mix);
    let coefficient = coefficient_from_inharmonicity(string.inharmonicity, &bend);
    filter_phase_delay(&filter) + sections_phase_delay(string.sections, coefficient) + 1.0
}

/// How long the loop of a string has to be, in samples.
pub fn loop_length(string: &PluckedString, rate: f32) -> Binary32 {
    bits(rate / number(string.frequency.hertz()) - filters_delay(string))
}

/// The arithmetic of a strike, as the library takes it.
pub fn hammers(rate: f32) -> Hammers<
    HammerState,
    f32,
    impl Fn(Binary32) -> f32,
    impl Fn(HammerConfig, Binary32, f32, Binary32) -> (f32, Binary32),
    impl Fn(HammerConfig, Binary32) -> Binary32,
    impl Fn(Binary32, Binary32) -> Binary32,
    impl Fn(Binary32) -> Binary32,
    impl Fn(PluckedString, Binary32, Binary32, Binary32, usize) -> HammerState,
    impl Fn(PluckedString) -> Binary32,
> {
    Hammers {
        sample_rate: bits(rate),
        begin,
        advance,
        force: felt_force,
        scale: over,
        invert,
        start: move |string: PluckedString,
                     velocity: Binary32,
                     peak: Binary32,
                     slope: Binary32,
                     contact: usize| start(string, velocity, peak, slope, contact, rate),
        reach,
        states: PhantomData,
    }
}

/// Where the felt is at first.
fn start(
    string: PluckedString,
    velocity: Binary32,
    peak: Binary32,
    slope: Binary32,
    contact: usize,
    rate: f32,
) -> HammerState {
    let hammer = sanitize_hammer(string.hammer);
    HammerState {
        compression: 0.0,
        velocity: strike_speed(number(velocity)),
        separated: false,
        shape: 0.0,
        felt: [0.0; EXCITATION_POLES],
        strike: Strike {
            exponent: number(hammer.contact_exponent),
            stiffness: number(hammer.stiffness),
            mass: number(hammer.mass),
            interval: 1.0 / number(integration_rate(bits(rate))),
            peak: number(peak),
            inverse_slope: number(slope),
            velocity: number(velocity),
            noise_mix: number(string.excitation_noise_mix),
            felt_pole: felt_pole(contact),
        },
    }
}

/// How far the comb of a strike reaches, and a half.
fn reach(string: PluckedString) -> Binary32 {
    bits(number(string.strike_position) * number(string.loop_delay()) + 0.5)
}

/// The arithmetic of the settings, as the library takes it.
pub fn settings(rate: f32) -> Settings<
    ModeCoefficients,
    impl Fn(Binary32) -> Binary32,
    impl Fn(PluckedString) -> Binary32,
    impl Fn(Binary32, Binary32) -> Binary32,
    impl Fn(SoundboardMode) -> ModeCoefficients,
    impl Fn(Binary32, Binary32) -> Binary32,
> {
    Settings {
        bend,
        retuned: move |string: PluckedString| loop_length(&string, rate),
        detune: moved,
        resonate: move |mode: SoundboardMode| resonator(mode, rate),
        power,
        board: PhantomData,
    }
}

/// Moves a frequency by some cents.
fn moved(frequency: Binary32, cents: Binary32) -> Binary32 {
    bits(detuned(number(frequency), number(cents)))
}

/// What goes back into a string: what survives of its own signal, with what the
/// bridge drives into it as far as the string gives to the bridge, and on top of
/// that what a hammer pushes.
fn reflect(mixed: Binary32, coupling: Binary32, gain: Binary32, pushed: Binary32) -> Binary32 {
    let gain = number(gain);
    let driven = number(mixed) + number(coupling) * (1.0 - gain);
    bits(driven * gain + number(pushed))
}

/// Builds one string with its path.
pub fn string_with_path(
    config: StringConfig,
    sample_rate: SampleRate,
) -> Result<(PluckedString, Path), ParamError> {
    let rate = number(sample_rate.hertz());
    build_string(
        config,
        sample_rate,
        highest_fundamental(rate),
        line_capacity(config, rate),
        &wanted_sections,
        &bend,
        &settings(rate).retuned,
    )
}

// Floating point: the strings of one note.

/// Moves a frequency by some cents.
pub fn detuned(frequency: f32, cents: f32) -> f32 {
    frequency * 2.0f32.powf(cents / 1200.0)
}

/// A note's strings, and the path of each.
pub struct GroupVoice {
    /// What the library keeps of the strings.
    pub group: UnisonGroup,
    /// Their paths.
    pub paths: Vec<Path>,
    rate: f32,
}

impl GroupVoice {
    /// Builds a note of `unison_count` strings around `base`.
    pub fn new(
        base: StringConfig,
        unison_count: usize,
        sample_rate: SampleRate,
    ) -> Result<Self, ParamError> {
        let rate = number(sample_rate.hertz());
        let (group, paths) = build_note(
            base,
            unison_count,
            sample_rate,
            highest_fundamental(rate),
            &moved,
            &|config: StringConfig| line_capacity(config, rate),
            &wanted_sections,
            &bend,
            &settings(rate).retuned,
        )?;
        Ok(GroupVoice { group, paths, rate })
    }

    /// Strikes every string.
    pub fn pluck(&mut self, velocity: f32) {
        let hammers = hammers(self.rate);
        self.group.pluck(bits(velocity), &mut self.paths, &arithmetic(), &hammers);
    }

    /// One sample, with only the note's own strings coupled.
    pub fn process(&mut self) -> f32 {
        number(arithmetic().sound_note(&mut self.group, &mut self.paths))
    }

    /// One sample, coupled to the bridge too.
    pub fn process_with_bridge(
        &mut self,
        bridge: &mut BridgeBus<Binary32>,
        bridge_index: usize,
    ) -> f32 {
        number(arithmetic().sound_note_with_bridge(
            &mut self.group,
            &mut self.paths,
            bridge,
            bridge_index,
        ))
    }
}

// Floating point: the soundboard.

/// Highest pole radius of a resonator.
const MAX_RADIUS: f32 = 0.999_9;

/// What one mode comes to.
#[derive(Debug, Clone, Copy)]
pub struct ModeCoefficients {
    two_r_cos_theta: f32,
    neg_r_squared: f32,
    input_gain: f32,
}

/// Works out the resonator of a mode.
pub fn resonator(mode: SoundboardMode, sample_rate: f32) -> ModeCoefficients {
    let decay = number(mode.decay_seconds);
    let radius = number(clamp_or_low(
        bits((-1.0 / (decay * sample_rate)).exp()),
        zero(),
        bits(MAX_RADIUS),
    ));
    let theta = std::f32::consts::TAU * number(mode.frequency_hz) / sample_rate;
    ModeCoefficients {
        two_r_cos_theta: 2.0 * radius * theta.cos(),
        neg_r_squared: -(radius * radius),
        input_gain: number(mode.gain) * (1.0 - radius),
    }
}

fn ring(mode: ModeCoefficients, one: Binary32, two: Binary32, drive: Binary32) -> Binary32 {
    bits(
        mode.two_r_cos_theta * number(one)
            + mode.neg_r_squared * number(two)
            + mode.input_gain * number(drive),
    )
}

/// Builds the resonators of a board.
pub fn build_board(board: &Soundboard, sample_rate: f32) -> ResonatorBank<ModeCoefficients> {
    ResonatorBank::new(board, &|mode: SoundboardMode| resonator(mode, sample_rate))
}

/// Drives the board with one sample, and returns what it radiates.
pub fn radiate(bank: &mut ResonatorBank<ModeCoefficients>, sample: f32) -> f32 {
    number(bank.process(bits(sample), &ring, &plus))
}

// Floating point: the voicing of a key.

/// How the three fitted partials weigh against each other.
const PARTIAL_WEIGHTS: [f32; 3] = [2.0, 1.0, 1.0];

/// The highest partial worth fitting, as a fraction of the sample rate.
const HIGHEST_SOLVED_PARTIAL_FRACTION: f32 = 0.45;

const MIN_SOLVED_PARTIAL: f32 = 2.0;
const BRIGHTNESS_PARTIAL: f32 = 8.0;
const MIN_SOLVED_MAGNITUDE: f32 = 1e-9;
const MIN_TARGET_SECONDS: f32 = 1e-3;
const MAX_BROADBAND_LOSS: f32 = 1.0;
const MIN_POLE_SHAPE: f32 = 1e-7;
const MAX_POLE_SHAPE: f32 = 1e6;
const SILENCE_THRESHOLD: f32 = 1e-4;

/// The frequency of a key under `tuning`.
pub fn key_frequency(key: PianoKey, tuning: Tuning) -> Hz {
    let semitones = f32::from(key.semitones_from_concert_a());
    let hertz = number(tuning.reference().hertz()) * 2.0f32.powf(semitones / 12.0);
    key.frequency(tuning, bits(hertz))
}

/// The line between two points, evenly spaced over octaves.
pub fn interpolate_log_frequency(position: Binary32, low: Point, high: Point) -> Binary32 {
    let low_log = number(low.0).ln();
    let span = number(high.0).ln() - low_log;
    if span <= 0.0 {
        return low.1;
    }
    let along = number(normalise(bits((number(position).ln() - low_log) / span)));
    bits(number(low.1) + along * (number(high.1) - number(low.1)))
}

/// The same line, with both axes logarithmic.
fn interpolate_log_both(position: Binary32, low: Point, high: Point) -> Binary32 {
    let lower = (low.0, bits(number(low.1).ln()));
    let upper = (high.0, bits(number(high.1).ln()));
    bits(number(interpolate_log_frequency(position, lower, upper)).exp())
}

/// The target ring-out time of a partial, in seconds.
pub fn seconds_for_partial(targets: DecayTargets, partial: f32) -> f32 {
    number(targets.seconds_for_partial(bits(partial), &interpolate_log_both))
}

/// The three partials a key is fitted at.
pub fn solved_partials(frequency: f32, sample_rate: f32) -> [f32; 3] {
    let brightness = number(clamp_or_low(
        bits(sample_rate * HIGHEST_SOLVED_PARTIAL_FRACTION / frequency),
        bits(MIN_SOLVED_PARTIAL),
        bits(BRIGHTNESS_PARTIAL),
    ));
    [1.0, brightness.sqrt(), brightness]
}

fn required_losses(frequency: f32, targets: DecayTargets, partials: [f32; 3]) -> [f32; 3] {
    partials.map(|partial| {
        let seconds = seconds_for_partial(targets, partial).max(MIN_TARGET_SECONDS);
        -SILENCE_THRESHOLD.ln() / (frequency * seconds).max(1.0)
    })
}

fn filter_losses(
    pole_axis: f32,
    zero_axis: f32,
    frequency: f32,
    partials: [f32; 3],
    sample_rate: f32,
) -> [f32; 3] {
    let filter =
        LoopFilter::new(bits(pole_for_axis(pole_axis)), bits(zero_mix_for_axis(zero_axis)));
    partials.map(|partial| {
        let magnitude = magnitude_at(&filter, frequency * partial, sample_rate);
        -magnitude.max(MIN_SOLVED_MAGNITUDE).ln()
    })
}

/// The broadband loss that best completes `losses`, and what is left over.
fn fit_broadband_loss(losses: [f32; 3], required: [f32; 3]) -> (f32, f32) {
    let mut weight_sum = 0.0f32;
    let mut weighted_deficit = 0.0f32;
    for ((&loss, &target), &weight) in
        losses.iter().zip(required.iter()).zip(PARTIAL_WEIGHTS.iter())
    {
        let scale = weight / (target * target).max(f32::MIN_POSITIVE);
        weight_sum += scale;
        weighted_deficit += scale * (target - loss);
    }
    let loss = number(clamp_or_low(
        bits(weighted_deficit / weight_sum.max(f32::MIN_POSITIVE)),
        zero(),
        bits(MAX_BROADBAND_LOSS),
    ));
    (loss, weighted_residual(loss, losses, required))
}

fn weighted_residual(broadband_loss: f32, losses: [f32; 3], required: [f32; 3]) -> f32 {
    losses
        .iter()
        .zip(required.iter())
        .zip(PARTIAL_WEIGHTS.iter())
        .map(|((&loss, &target), &weight)| {
            let error = (broadband_loss + loss) / target.max(f32::MIN_POSITIVE) - 1.0;
            weight * error * error
        })
        .sum()
}

/// Where a step of a sweep lies along an axis.
fn place(centre: Binary32, half_width: Binary32, step: u32, points: u32) -> Binary32 {
    let position = if points <= 1 {
        0.5
    } else {
        step as f32 / (points - 1) as f32
    };
    normalise(bits(number(centre) + (2.0 * position - 1.0) * number(half_width)))
}

/// The pole a place along its axis stands for.
pub fn pole_for_axis(axis: f32) -> f32 {
    let (low, high) = (MIN_POLE_SHAPE.ln(), MAX_POLE_SHAPE.ln());
    let shape = (low + number(normalise(bits(axis))) * (high - low)).exp();
    let root_plus_one = (shape + 1.0).sqrt() + 1.0;
    number(normalise(bits(shape / (root_plus_one * root_plus_one))))
}

/// The zero mix a place along its axis stands for.
pub fn zero_mix_for_axis(axis: f32) -> f32 {
    let shape = number(normalise(bits(axis)));
    shape / (2.0 * (1.0 + (1.0 - shape).max(0.0).sqrt()))
}

/// Finds the losses that make a string at `frequency` ring out as `targets` say.
pub fn solve(frequency: Binary32, targets: DecayTargets, sample_rate: f32) -> LoopLosses {
    let frequency = number(frequency);
    let partials = solved_partials(frequency, sample_rate);
    let required = required_losses(frequency, targets, partials);
    let losses_of = |pole_axis: Binary32, zero_axis: Binary32| {
        filter_losses(number(pole_axis), number(zero_axis), frequency, partials, sample_rate)
    };
    solve_loop_losses(
        &place,
        &|pole_axis: Binary32, zero_axis: Binary32| {
            bits(fit_broadband_loss(losses_of(pole_axis, zero_axis), required).1)
        },
        &|pole_axis: Binary32, zero_axis: Binary32| {
            let loss = fit_broadband_loss(losses_of(pole_axis, zero_axis), required).0;
            LoopLosses {
                pole: bits(pole_for_axis(number(pole_axis))),
                zero_mix: bits(zero_mix_for_axis(number(zero_axis))),
                sustain: bits((-loss).exp()),
            }
        },
    )
}

/// The voicing of a key, with what `registers` override.
pub fn key_voicing(
    key: PianoKey,
    tuning: Tuning,
    sample_rate: SampleRate,
    registers: RegisterOverrides,
) -> KeyVoicing {
    let hertz = |midi: u8| match PianoKey::from_midi(midi) {
        Ok(key) => key_frequency(key, tuning).hertz(),
        Err(_) => tuning.reference().hertz(),
    };
    let rate = number(sample_rate.hertz());
    voicing_for_key_with_registers(
        key,
        registers,
        &hertz,
        &interpolate_log_frequency,
        &|frequency: Binary32, targets: DecayTargets| solve(frequency, targets, rate),
    )
}

/// The string a key is built from.
pub fn key_config(key: PianoKey, tuning: Tuning, sample_rate: SampleRate) -> StringConfig {
    let voicing = key_voicing(key, tuning, sample_rate, RegisterOverrides::default());
    config_for_key(key_frequency(key, tuning), voicing)
}

// Floating point: the whole instrument.

/// The engine, and the samples of everything it plays.
pub struct Renderer {
    engine: Engine,
    paths: Vec<Vec<Path>>,
    bridge: BridgeBus<Binary32>,
    board: ResonatorBank<ModeCoefficients>,
    block: Vec<Binary32>,
    rate: f32,
}

impl Renderer {
    /// Builds every voice for `sample_rate` and `tuning`; `unison_strings`, where
    /// given, is how many strings every key gets instead of its own.
    pub fn new(sample_rate: SampleRate, tuning: Tuning, unison_strings: Option<usize>) -> Self {
        let mut groups = Vec::with_capacity(KEY_COUNT);
        let mut paths = Vec::with_capacity(KEY_COUNT);
        for index in 0..KEY_COUNT {
            let built = PianoKey::from_midi(LOWEST_PIANO_KEY + index as u8).ok().and_then(|key| {
                let config = key_config(key, tuning, sample_rate);
                let count = unison_strings.unwrap_or_else(|| unison_count_for_key(key));
                GroupVoice::new(config, count, sample_rate).ok()
            });
            match built {
                Some(voice) => {
                    groups.push(Some(voice.group));
                    paths.push(voice.paths);
                }
                None => {
                    groups.push(None);
                    paths.push(Vec::new());
                }
            }
        }
        let rate = number(sample_rate.hertz());
        Renderer {
            engine: Engine::new(groups),
            paths,
            bridge: BridgeBus::with_capacity(BRIDGE_BLOCK_SAMPLES, zero()),
            board: build_board(&Soundboard::new(), rate),
            block: vec![zero(); BRIDGE_BLOCK_SAMPLES],
            rate,
        }
    }

    /// Carries out the commands that wait in the ring.
    pub fn drain_commands(&mut self, consumer: &mut rtrb::Consumer<Command>) {
        self.engine.drain_commands(
            consumer,
            &mut self.paths,
            &mut self.board,
            &arithmetic(),
            &hammers(self.rate),
            &settings(self.rate),
        );
    }

    /// Strikes a key.
    pub fn note_on(&mut self, midi: u8, velocity: f32) {
        self.engine.note_on(
            midi,
            bits(velocity),
            &mut self.paths,
            &mut self.board,
            &arithmetic(),
            &hammers(self.rate),
            &settings(self.rate),
        );
    }

    /// Releases a key.
    pub fn note_off(&mut self, midi: u8) {
        self.engine.note_off(midi);
    }

    /// Moves the sustain pedal.
    pub fn set_sustain_pedal(&mut self, down: bool) {
        self.engine.set_sustain_pedal(down);
    }

    /// Renders `output.len()` samples in place of what it held. Where a block is cut
    /// between two chunks does not matter, so a block of any length goes through one
    /// chunk's worth of the library's numbers.
    pub fn process_block(&mut self, output: &mut [f32]) {
        for chunk in output.chunks_mut(BRIDGE_BLOCK_SAMPLES) {
            let heard = &mut self.block[..chunk.len()];
            self.engine.process_block(
                heard,
                &mut self.paths,
                &mut self.bridge,
                &mut self.board,
                &arithmetic(),
                &ring,
                &saturate,
            );
            for (sample, heard) in chunk.iter_mut().zip(heard.iter()) {
                *sample = number(*heard);
            }
        }
    }
}

// The instrument, played.

/// One string with its path.
struct Played {
    string: PluckedString,
    path: Path,
}

impl Played {
    fn built(config: StringConfig) -> Self {
        let (string, path) =
            string_with_path(config, rate()).expect("frequency is representable at 48 kHz");
        Played { string, path }
    }

    fn pluck(&mut self, velocity: f32) {
        self.string.pluck(bits(velocity), &mut self.path, &arithmetic(), &hammers(48_000.0));
    }

    fn process(&mut self) -> f32 {
        number(arithmetic().process(&mut self.string, &mut self.path))
    }

    fn set_damping(&mut self, damping: f32) {
        self.string.set_damping(bits(damping), &settings(48_000.0).retuned);
        self.path.retune(&self.string, &bend);
    }

    fn set_inharmonicity(&mut self, inharmonicity: f32) {
        self.string.set_inharmonicity(bits(inharmonicity), &settings(48_000.0).retuned);
        self.path.retune(&self.string, &bend);
    }

    fn set_frequency(&mut self, hertz: f32) {
        self.string.set_frequency(hz(hertz), &settings(48_000.0).retuned);
    }

    fn loop_delay(&self) -> f32 {
        number(self.string.loop_delay())
    }

    fn total_delay(&self) -> f32 {
        self.loop_delay() + filters_delay(&self.string)
    }

    fn envelope(&self) -> f32 {
        number(self.string.envelope())
    }

    fn is_silent(&self) -> bool {
        self.string.is_silent()
    }

    fn is_contact_pending(&self) -> bool {
        self.path.pending.is_some()
    }

    /// Takes the hammer one sample further.
    fn next_contact_sample(&mut self, incoming: f32) -> f32 {
        number(PendingContact::next_contact_sample(
            &mut self.path.pending,
            bits(incoming),
            zero(),
            &step,
            &has_left,
        ))
    }

    fn tap_and_disperse(&mut self) -> (f32, f32) {
        let (tap, signal) = arithmetic().hear(&self.string, &mut self.path);
        (number(tap), number(signal))
    }

    fn feed_back(&mut self, tap: f32, mixed: f32, coupling: f32) -> f32 {
        let feedback = Feedback { mixed: bits(mixed), coupling: bits(coupling) };
        number(arithmetic().answer(&mut self.string, &mut self.path, bits(tap), feedback))
    }
}

fn rate() -> SampleRate {
    SampleRate::new(bits(48_000.0)).expect("48 kHz is valid")
}

fn hz(frequency: f32) -> Hz {
    Hz::new(bits(frequency)).expect("frequency is valid")
}

fn string_at(frequency: f32) -> Played {
    Played::built(StringConfig::new(hz(frequency)))
}

fn group_at(frequency: f32, count: usize) -> GroupVoice {
    GroupVoice::new(StringConfig::new(hz(frequency)), count, rate())
        .expect("frequency is representable at 48 kHz")
}

fn cascade_phase_delay(cascade: &DispersionCascade) -> f32 {
    sections_phase_delay(cascade.active_sections(), cascade.coefficient())
}

fn cascade(frequency: f32, inharmonicity: f32) -> DispersionCascade {
    DispersionCascade::new(bits(frequency), bits(inharmonicity), &wanted_sections, &bend)
}

#[test]
fn stays_within_the_bipolar_range() {
    let mut rng = Xorshift32::default();
    for _ in 0..10_000 {
        let sample = number(rng.next_bipolar());
        assert!((-1.0..1.0).contains(&sample), "sample {sample} out of range");
    }
}

#[test]
fn has_roughly_zero_mean() {
    let mut rng = Xorshift32::default();
    let count = 100_000;
    let sum: f32 = (0..count).map(|_| number(rng.next_bipolar())).sum();
    let mean = sum / count as f32;
    assert!(mean.abs() < 0.02, "mean {mean} is too far from zero");
}

#[test]
fn a_noise_sample_is_the_drawn_value_scaled_and_centred() {
    let computed = |value: u32| (value as f32) * (1.0 / 2_147_483_648.0) - 1.0;
    let mut values = Xorshift32::new(99);
    let mut samples = Xorshift32::new(99);
    for _ in 0..10_000 {
        let value = values.next_u32();
        assert_eq!(samples.next_bipolar(), bits(computed(value)), "{value}");
    }
    for value in [
        0,
        1,
        3,
        0x00ff_ffff,
        0x0100_0001,
        0x7fff_ff7f,
        0x7fff_ff80,
        0x7fff_ffff,
        0x8000_0000,
        0x8000_0001,
        0x8000_0081,
        0xffff_fe80,
        0xffff_ff00,
    ] {
        assert_eq!(bipolar(value), bits(computed(value)), "{value}");
    }
    assert_eq!(number(bipolar(0)), -1.0);
    assert_eq!(number(bipolar(0x8000_0000)), 0.0);
    assert_eq!(number(bipolar(0xffff_ff00)), 0.999_999_9);
    assert!(number(bipolar(0xffff_ff00)) < 1.0);
}

#[test]
fn pole_is_clamped_below_one() {
    let loud = LoopFilter::new(bits(5.0), bits(0.5));
    assert!(filter_phase_delay(&loud).is_finite());
    let open = LoopFilter::new(bits(-1.0), bits(0.5));
    assert_eq!(filter_phase_delay(&open), 0.5);
}

#[test]
fn transparent_filter_passes_a_steady_input_through() {
    let mut filter = LoopFilter::new(bits(0.0), bits(0.5));
    filter_sample(&mut filter, 0.7);
    assert_eq!(filter_sample(&mut filter, 0.7), 0.7);
}

#[test]
fn step_response_converges_to_the_input() {
    let mut filter = LoopFilter::new(bits(0.9), bits(0.5));
    let mut output = 0.0;
    for _ in 0..500 {
        output = filter_sample(&mut filter, 1.0);
    }
    assert!((output - 1.0).abs() < 1e-3, "converged to {output}");
}

#[test]
fn dc_blocker_removes_a_constant_offset() {
    let mut blocker = DcBlocker::default();
    let mut output = 0.0;
    for _ in 0..5_000 {
        output = block_sample(&mut blocker, 1.0);
    }
    assert!(output.abs() < 1e-2, "residual DC {output}");
    blocker.reset();
    assert_eq!(block_sample(&mut blocker, 0.0), 0.0);
}

#[test]
fn reset_clears_state() {
    let mut filter = LoopFilter::new(bits(0.9), bits(0.5));
    filter_sample(&mut filter, 1.0);
    filter.reset();
    assert_eq!(filter_sample(&mut filter, 0.0), 0.0);
    assert_eq!(filter, LoopFilter::new(bits(0.9), bits(0.5)));
}

#[test]
fn set_pole_changes_the_coefficient_without_resetting_state() {
    let mut filter = LoopFilter::new(bits(0.9), bits(0.5));
    filter_sample(&mut filter, 1.0);
    let state_before = filter_sample(&mut filter, 1.0);
    filter.set_pole(bits(0.1));
    assert!((filter_phase_delay(&filter) - (0.5 + 0.1 / 0.9)).abs() < 1e-6);
    assert!((filter_sample(&mut filter, 1.0) - state_before).abs() < 1.0);
}

#[test]
fn set_pole_clamps_out_of_range_values() {
    let mut filter = LoopFilter::new(bits(0.5), bits(0.5));
    filter.set_pole(bits(5.0));
    assert_eq!(number(filter.pole), 0.999_9);
    let max_pole = 0.999_9f32;
    assert!((filter_phase_delay(&filter) - (0.5 + max_pole / (1.0 - max_pole))).abs() < 1e-3);
    filter.set_pole(bits(-1.0));
    assert_eq!(filter_phase_delay(&filter), 0.5);
    filter.set_pole(bits(f32::NAN));
    assert_eq!(number(filter.pole), 0.0);
    assert_eq!(number(LoopFilter::new(bits(0.5), bits(7.0)).zero_mix), 0.5);
}

#[test]
fn magnitude_at_dc_is_unity_regardless_of_pole() {
    for pole in [0.0f32, 0.3, 0.6, 0.9, 0.99] {
        let filter = LoopFilter::new(bits(pole), bits(0.5));
        assert!(
            (magnitude_at(&filter, 0.0, 48_000.0) - 1.0).abs() < 1e-4,
            "pole {pole} gave DC gain {}",
            magnitude_at(&filter, 0.0, 48_000.0)
        );
    }
}

#[test]
fn magnitude_at_a_mid_register_fundamental_is_measurably_below_unity() {
    let filter = LoopFilter::new(bits(0.5), bits(0.5));
    let gain = magnitude_at(&filter, 440.0, 48_000.0);
    assert!(
        (0.99..0.998).contains(&gain),
        "expected a small but real loss at A4, got {gain}"
    );
}

#[test]
fn magnitude_at_falls_back_to_unity_for_a_degenerate_sample_rate() {
    let filter = LoopFilter::new(bits(0.5), bits(0.5));
    assert_eq!(magnitude_at(&filter, 440.0, 0.0), 1.0);
    assert_eq!(magnitude_at(&filter, 440.0, -48_000.0), 1.0);
    assert_eq!(magnitude_at(&filter, 440.0, f32::NAN), 1.0);
    assert_eq!(magnitude_at(&filter, f32::NAN, 48_000.0), 1.0);
}

#[test]
fn register_scaling_matches_the_documented_table() {
    let sections = |hertz: f32| section_count(bits(hertz), &wanted_sections);
    assert_eq!(sections(27.5), 8);
    assert_eq!(sections(440.0), 2);
    assert!(sections(4186.0) <= 1);
    assert_eq!(sections(f32::NAN), 8, "counted as the lowest key");
    assert_eq!(sections(-440.0), 8);
}

#[test]
fn sections_are_rounded_halves_up() {
    for (asked, rounded) in
        [(-3.0, 0), (0.49, 0), (0.5, 1), (2.499, 2), (2.5, 3), (7.5, 8), (99.0, 8), (f32::NAN, 0)]
    {
        assert_eq!(section_count(bits(440.0), &|_: Binary32| bits(asked)), rounded, "{asked}");
    }
}

#[test]
fn more_inharmonicity_means_a_larger_coefficient_magnitude() {
    let coefficient =
        |inharmonicity: f32| number(coefficient_from_inharmonicity(bits(inharmonicity), &bend));
    let small = coefficient(0.0001).abs();
    let large = coefficient(0.01).abs();
    assert!(large > small, "small {small} large {large}");
    assert_eq!(coefficient(1.0), -0.8, "kept away from the unit circle");
    assert_eq!(coefficient(f32::NAN), 0.0);
}

#[test]
fn zero_inharmonicity_is_a_pure_delay_of_the_section_count() {
    let mut cascade = cascade(440.0, 0.0);
    let active = cascade.active_sections();
    let inputs = [0.3, -0.6, 0.9, -0.2, 0.5, -0.5, 0.1, -0.1];
    let outputs: Vec<f32> = inputs.iter().map(|&x| disperse_sample(&mut cascade, x)).collect();
    for (expected, actual) in inputs.iter().zip(outputs.iter().skip(active)) {
        assert!(
            (actual - expected).abs() < 1e-6,
            "output {actual} vs delayed input {expected}"
        );
    }
}

#[test]
fn set_inharmonicity_changes_the_coefficient_without_resetting_state() {
    let mut cascade = cascade(440.0, 0.0);
    let _ = disperse_sample(&mut cascade, 1.0);
    let before_phase_delay = cascade_phase_delay(&cascade);
    cascade.set_inharmonicity(bits(0.01), &bend);
    assert_ne!(cascade_phase_delay(&cascade), before_phase_delay);
}

#[test]
fn reset_clears_every_section() {
    let mut cascade = cascade(27.5, 0.01);
    let _ = disperse_sample(&mut cascade, 1.0);
    cascade.reset();
    assert_eq!(disperse_sample(&mut cascade, 0.0), 0.0);
}

fn contact_curve(
    velocity: f32,
    sample_rate: f32,
    hammer: HammerConfig,
) -> ([Binary32; MAX_CONTACT_SAMPLES], usize) {
    let mut curve = [bits(9.0); MAX_CONTACT_SAMPLES];
    let active = simulate_contact(
        bits(velocity),
        bits(sample_rate),
        hammer,
        &mut curve,
        &begin,
        &advance,
        &felt_force,
        &over,
    );
    (curve, active)
}

fn simulated(velocity: f32, hammer: HammerConfig) -> (Vec<f32>, usize) {
    let (curve, active) = contact_curve(velocity, 48_000.0, hammer);
    (curve.iter().map(|force| number(*force)).collect(), active)
}

#[test]
fn harder_strikes_produce_shorter_contact() {
    let (_, soft_samples) = simulated(0.1, HammerConfig::default());
    let (_, hard_samples) = simulated(0.9, HammerConfig::default());
    assert!(
        hard_samples < soft_samples,
        "hard {hard_samples} soft {soft_samples}"
    );
}

#[test]
fn contact_duration_is_physically_plausible() {
    let sample_rate = 48_000.0;
    for velocity in [0.0, 0.5, 1.0] {
        let (_, samples) = simulated(velocity, HammerConfig::default());
        let milliseconds = samples as f32 / sample_rate * 1_000.0;
        assert!(
            (0.1..20.0).contains(&milliseconds),
            "velocity {velocity}: {milliseconds} ms is not plausible"
        );
    }
}

#[test]
fn the_force_envelope_peaks_at_one() {
    let (force, active) = simulated(0.7, HammerConfig::default());
    let peak = force.iter().take(active).copied().fold(0.0f32, f32::max);
    assert!((peak - 1.0).abs() < 1e-6, "peak {peak}");
}

#[test]
fn samples_past_contact_are_silent() {
    let (force, active) = simulated(0.5, HammerConfig::default());
    assert!(force.iter().skip(active).all(|sample| *sample == 0.0));
}

#[test]
fn a_stiffer_hammer_produces_a_shorter_contact() {
    let soft = HammerConfig { stiffness: bits(1.7e7), ..HammerConfig::default() };
    let stiff = HammerConfig { stiffness: bits(1.7e11), ..HammerConfig::default() };
    let (_, soft_samples) = simulated(0.7, soft);
    let (_, stiff_samples) = simulated(0.7, stiff);
    assert!(
        stiff_samples < soft_samples,
        "stiff {stiff_samples} soft {soft_samples}"
    );
}

#[test]
fn simulated_contacts_are_finite_for_any_hammer() {
    let odd = [f32::NAN, f32::INFINITY, -1.0, 0.0, 1e30, 2.5];
    for velocity in odd {
        for exponent in odd {
            for stiffness in odd {
                let hammer = HammerConfig {
                    contact_exponent: bits(exponent),
                    stiffness: bits(stiffness),
                    mass: bits(velocity),
                };
                let (curve, active) = contact_curve(velocity, stiffness, hammer);
                assert!(active <= MAX_CONTACT_SAMPLES);
                let hammers = hammers(stiffness);
                let (contact, peak, slope) = hammers.measure(hammer, bits(velocity), &minus);
                assert_eq!(contact, active);
                assert!(number(peak).is_finite() && number(slope).is_finite());
                for force in curve {
                    assert!((0.0..=1.0).contains(&number(force)), "{}", number(force));
                }
            }
        }
    }
}

#[test]
fn simulating_a_contact_scales_what_it_integrates() {
    let mut curve = [bits(5.0); MAX_CONTACT_SAMPLES];
    // A felt that is compressed by one for three steps, and then lets go.
    let active = simulate_contact(
        bits(0.5),
        bits(48_000.0),
        HammerConfig::default(),
        &mut curve,
        &|_: Binary32| 0u32,
        &|_: HammerConfig, _: Binary32, step: u32, _: Binary32| {
            (step + 1, bits(if step < 3 { 1.0 } else { -1.0 }))
        },
        &|_: HammerConfig, compression: Binary32| bits(4.0 * number(compression)),
        &over,
    );
    assert_eq!(active, 4);
    let forces: Vec<f32> = curve.iter().map(|force| number(*force)).collect();
    assert_eq!(forces[..5], [1.0, 1.0, 1.0, 0.0, 0.0]);
    assert!(forces[5..].iter().all(|force| *force == 0.0));
}

#[test]
fn a_contact_is_simulated_for_a_velocity_and_a_hammer_within_range() {
    let forces = |velocity: f32, rate: f32, hammer: HammerConfig| {
        let mut curve = [bits(9.0); MAX_CONTACT_SAMPLES];
        let (velocity, rate) = (bits(velocity), bits(rate));
        let active = simulate_contact(
            velocity, rate, hammer, &mut curve, &begin, &advance, &felt_force, &over,
        );
        (active, curve.map(number))
    };
    let odd = HammerConfig {
        contact_exponent: bits(f32::NAN),
        stiffness: bits(f32::INFINITY),
        mass: bits(-1.0),
    };
    assert_eq!(forces(9.0, 48_000.0, odd), forces(1.0, 48_000.0, sanitize_hammer(odd)));
    assert_eq!(forces(f32::NAN, 48_000.0, odd), forces(0.0, 48_000.0, odd));
    let hammer = HammerConfig::default();
    let (active, curve) = forces(0.7, 48_000.0, hammer);
    assert!(active > 1 && active < MAX_CONTACT_SAMPLES);
    assert!(curve.iter().all(|force| (0.0..=1.0).contains(force)));
    assert!(curve.contains(&1.0), "the peak is full scale");
    assert_ne!(forces(0.7, 48_000.0, hammer), forces(0.2, 48_000.0, hammer));
    assert_ne!(forces(0.7, 48_000.0, hammer), forces(0.7, 96_000.0, hammer));
}

#[test]
fn forces_stay_in_scale_whatever_the_arithmetic_gives() {
    let mut curve = [bits(5.0); MAX_CONTACT_SAMPLES];
    simulate_contact(
        bits(0.5),
        bits(48_000.0),
        HammerConfig::default(),
        &mut curve,
        &|_: Binary32| 0u32,
        &|_: HammerConfig, _: Binary32, step: u32, _: Binary32| (step + 1, bits(1.0)),
        &|_: HammerConfig, _: Binary32| bits(f32::MAX),
        &|_: Binary32, _: Binary32| bits(1e30),
    );
    assert!(curve.iter().all(|force| (0.0..=1.0).contains(&number(*force))));
}

fn soundboard() -> ResonatorBank<ModeCoefficients> {
    build_board(&Soundboard::new(), 48_000.0)
}

#[test]
fn silence_in_is_silence_out() {
    let mut board = soundboard();
    for _ in 0..1_000 {
        assert_eq!(radiate(&mut board, 0.0), 0.0);
    }
}

#[test]
fn an_impulse_produces_a_ringing_tail() {
    let mut board = soundboard();
    radiate(&mut board, 1.0);
    let mut peak_after_impulse = 0.0f32;
    for _ in 0..2_000 {
        peak_after_impulse = peak_after_impulse.max(radiate(&mut board, 0.0).abs());
    }
    assert!(
        peak_after_impulse > 1e-3,
        "peak {peak_after_impulse} did not ring"
    );
}

#[test]
fn the_ring_eventually_decays_to_silence() {
    let mut board = soundboard();
    radiate(&mut board, 1.0);
    for _ in 0..(48_000 * 5) {
        radiate(&mut board, 0.0);
    }
    let tail = (0..128).map(|_| radiate(&mut board, 0.0).abs()).fold(0.0f32, f32::max);
    assert!(tail < 1e-4, "tail {tail} has not decayed");
}

#[test]
fn soundboard_output_stays_bounded_for_a_full_second() {
    let mut board = soundboard();
    for index in 0..48_000 {
        let input = if index == 0 { 1.0 } else { 0.0 };
        let sample = radiate(&mut board, input);
        assert!(sample.is_finite(), "sample {index} was not finite");
        assert!(sample.abs() < 8.0, "sample {index} = {sample} escaped");
    }
}

#[test]
fn the_board_survives_any_input() {
    let mut board = soundboard();
    for input in [f32::NAN, f32::INFINITY, f32::NEG_INFINITY, f32::MAX, f32::MIN, 0.0, 1.0] {
        assert!(radiate(&mut board, input).is_finite());
    }
}

#[test]
fn set_mode_changes_which_frequency_rings() {
    let mut low = soundboard();
    let mut high = soundboard();
    let mode = SoundboardMode {
        frequency_hz: bits(10_000.0),
        decay_seconds: bits(0.3),
        gain: bits(1.0),
    };
    high.rebuild(0, resonator(mode, 48_000.0));
    high.rebuild(99, resonator(mode, 48_000.0));
    radiate(&mut low, 1.0);
    radiate(&mut high, 1.0);
    let difference: f32 =
        (0..256).map(|_| (radiate(&mut low, 0.0) - radiate(&mut high, 0.0)).abs()).sum();
    assert!(
        difference > 1e-3,
        "retuning mode 0 did not change the ring: total diff {difference}"
    );
}

#[test]
fn total_loop_length_matches_the_period() {
    let string = string_at(440.0);
    let period = 48_000.0 / 440.0;
    let total_delay = string.total_delay();
    assert!(
        (total_delay - period).abs() < 1e-3,
        "total delay {total_delay} drifted from period {period}"
    );
}

#[test]
fn string_tests_is_silent_before_being_plucked() {
    let mut string = string_at(220.0);
    for _ in 0..1_000 {
        assert_eq!(string.process(), 0.0);
    }
    assert!(string.is_silent());
}

#[test]
fn plucking_produces_signal() {
    let mut string = string_at(220.0);
    string.pluck(1.0);
    let peak = (0..4_800).map(|_| string.process().abs()).fold(0.0f32, f32::max);
    assert!(peak > 0.05, "peak {peak} is inaudible");
}

#[test]
fn a_hard_strike_on_the_highest_key_still_produces_signal_once_coupled() {
    let mut string = string_at(4_186.0);
    string.pluck(0.9);
    let samples: Vec<f32> = (0..2_000).map(|_| string.process()).collect();
    assert!(
        samples.iter().any(|sample| sample.abs() > 1e-6),
        "a hard strike on the highest key produced no audible signal at all"
    );
}

#[test]
fn a_pending_contact_tail_is_forced_to_end_within_the_total_contact_sample_cap() {
    let mut string = string_at(4_186.0);
    string.pluck(0.9);
    assert!(
        string.is_contact_pending(),
        "a hard C8 strike should leave a pending contact tail to test against"
    );
    let burst_length = string.loop_delay() as usize + 1;
    let mut tail_samples = 0usize;
    // A string that always retreats as fast as any hammer never lets go of it.
    while string.is_contact_pending() && tail_samples < MAX_CONTACT_SAMPLES * 5 {
        string.next_contact_sample(-7.0);
        tail_samples += 1;
    }
    assert!(!string.is_contact_pending(), "the pending tail never ended");
    let total_samples = burst_length + tail_samples;
    assert!(
        total_samples <= MAX_CONTACT_SAMPLES,
        "contact ran for {total_samples} total samples"
    );
}

#[test]
fn handing_the_contact_over_to_the_pending_tail_injects_no_step_in_force() {
    let mut string = string_at(440.0);
    string.pluck(0.8);
    let samples: Vec<f32> = (0..1_000).map(|_| string.process()).collect();
    let peak = samples.iter().copied().map(f32::abs).fold(0.0, f32::max);
    assert!(
        peak < 1.0,
        "a single string peaks at {peak}, so the hand-off to the pending contact is injecting a \
         step rather than continuing the force pulse"
    );
}

#[test]
fn string_tests_output_stays_bounded_for_a_full_second() {
    let mut string = string_at(27.5);
    string.pluck(1.0);
    for index in 0..48_000 {
        let sample = string.process();
        assert!(sample.is_finite(), "sample {index} was not finite");
        assert!(sample.abs() < 4.0, "sample {index} = {sample} escaped");
    }
}

#[test]
fn zero_coupling_writes_back_exactly_the_uncoupled_signal() {
    let mut coupled = string_at(220.0);
    let mut plain = string_at(220.0);
    coupled.pluck(1.0);
    plain.pluck(1.0);
    for index in 0..4_800 {
        let (tap, dispersed) = coupled.tap_and_disperse();
        let driven = coupled.feed_back(tap, dispersed, 0.0);
        assert_eq!(driven, plain.process(), "diverged at sample {index}");
    }
}

#[test]
fn a_lossless_string_takes_nothing_from_the_bridge() {
    let mut moved = string_at(220.0);
    let mut reference = string_at(220.0);
    for string in [&mut moved, &mut reference] {
        string.string.set_sustain(bits(1.0));
        string.pluck(1.0);
    }
    let (tap, dispersed) = moved.tap_and_disperse();
    moved.feed_back(tap, dispersed, 1000.0);
    let (tap, dispersed) = reference.tap_and_disperse();
    reference.feed_back(tap, dispersed, 0.0);
    assert_eq!(
        moved.tap_and_disperse(),
        reference.tap_and_disperse(),
        "a lossless string was moved by the bridge"
    );
}

#[test]
fn energy_decays_after_the_attack() {
    let mut string = string_at(440.0);
    string.pluck(1.0);
    for _ in 0..4_800 {
        string.process();
    }
    let early = string.envelope();
    for _ in 0..48_000 {
        string.process();
    }
    assert!(string.envelope() < early, "envelope grew from {early}");
}

#[test]
fn a_plucked_string_eventually_goes_quiet() {
    let mut string = string_at(440.0);
    string.pluck(1.0);
    for _ in 0..48_000 * 30 {
        string.process();
    }
    assert!(string.is_silent(), "envelope {}", string.envelope());
}

#[test]
fn the_same_seed_renders_the_same_note() {
    let mut left = string_at(440.0);
    let mut right = string_at(440.0);
    left.pluck(0.8);
    right.pluck(0.8);
    for _ in 0..2_400 {
        assert_eq!(left.process(), right.process());
    }
}

#[test]
fn set_damping_keeps_the_total_loop_length_anchored_to_the_period() {
    let period = 48_000.0 / 440.0;
    for damping in [0.0, 0.3, 0.6, 0.9] {
        let mut string = string_at(440.0);
        string.set_damping(damping);
        let total_delay = string.total_delay();
        assert!(
            (total_delay - period).abs() < 1e-3,
            "damping {damping}: total delay {total_delay} drifted from period {period}"
        );
    }
}

#[test]
fn set_damping_never_produces_a_non_finite_or_unbounded_signal() {
    let mut string = string_at(440.0);
    string.pluck(1.0);
    string.set_damping(1.0);
    for index in 0..48_000 {
        let sample = string.process();
        assert!(sample.is_finite(), "sample {index} was not finite");
        assert!(sample.abs() < 4.0, "sample {index} = {sample} escaped");
    }
}

#[test]
fn set_damping_is_audible_immediately_on_an_already_ringing_string() {
    let mut string = string_at(220.0);
    string.pluck(1.0);
    for _ in 0..2_000 {
        string.process();
    }
    let before = (0..200).map(|_| string.process()).collect::<Vec<_>>();

    let mut identical_twin = string_at(220.0);
    identical_twin.pluck(1.0);
    for _ in 0..2_000 {
        identical_twin.process();
    }
    identical_twin.set_damping(0.99);
    let after = (0..200).map(|_| identical_twin.process()).collect::<Vec<_>>();

    assert_ne!(before, after, "changing damping had no audible effect");
}

#[test]
fn set_inharmonicity_retunes_the_loop_the_same_way_damping_does() {
    let mut string = string_at(440.0);
    let before = string.loop_delay();
    string.set_inharmonicity(0.02);
    assert_ne!(string.loop_delay(), before);
    let total_delay = string.total_delay();
    let period = 48_000.0 / 440.0;
    assert!(
        (total_delay - period).abs() < 1e-3,
        "total delay {total_delay} drifted from period {period}"
    );
}

#[test]
fn set_inharmonicity_never_produces_a_non_finite_or_unbounded_signal() {
    let mut string = string_at(220.0);
    string.pluck(1.0);
    string.set_inharmonicity(0.05);
    for index in 0..48_000 {
        let sample = string.process();
        assert!(sample.is_finite(), "sample {index} was not finite");
        assert!(sample.abs() < 4.0, "sample {index} = {sample} escaped");
    }
}

#[test]
fn set_frequency_retunes_within_reserved_headroom() {
    let mut string = string_at(220.0);
    let lowest = detuned(220.0, -MAX_LIVE_DETUNE_CENTS);
    string.set_frequency(lowest);
    let period = 48_000.0 / lowest;
    let total_delay = string.total_delay();
    assert!(
        (total_delay - period).abs() < 1e-3,
        "total delay {total_delay} drifted from the detuned period {period}: \
         reserved headroom was insufficient"
    );
}

#[test]
fn set_frequency_to_the_same_pitch_does_not_move_loop_delay() {
    let mut string = string_at(440.0);
    let before = string.loop_delay();
    string.set_frequency(440.0);
    assert!(
        (string.loop_delay() - before).abs() < 1e-3,
        "retuning to the same frequency should not move loop_delay"
    );
}

#[test]
fn live_changes_of_any_size_never_break_a_string() {
    for value in [f32::NAN, f32::INFINITY, f32::NEG_INFINITY, -1.0, 0.0, 1e-30, 0.999, 1e30] {
        let mut string = string_at(220.0);
        string.pluck(value);
        string.set_damping(value);
        string.set_inharmonicity(value);
        if let Ok(frequency) = Hz::new(bits(value)) {
            string.string.set_frequency(frequency, &settings(48_000.0).retuned);
        }
        string.string.set_strike_position(bits(value));
        string.string.set_excitation_noise_mix(bits(value));
        assert!(string.loop_delay() >= 2.0);
        for _ in 0..500 {
            assert!(string.process().is_finite());
        }
        string.pluck(1.0);
        for _ in 0..500 {
            let sample = string.process();
            assert!(sample.is_finite() && sample.abs() < 4.0, "{value} let {sample} escape");
        }
    }
}

#[test]
fn set_seed_changes_the_next_pluck_without_affecting_the_current_one() {
    let mut left = string_at(440.0);
    let mut right = string_at(440.0);
    left.pluck(0.8);
    right.pluck(0.8);
    for _ in 0..64 {
        assert_eq!(left.process(), right.process());
    }
    right.string.set_seed(0xDEAD_BEEF);
    left.pluck(0.8);
    right.pluck(0.8);
    let mut differed = false;
    for _ in 0..64 {
        if left.process() != right.process() {
            differed = true;
        }
    }
    assert!(differed, "reseeding did not change the next pluck");
}

#[test]
fn release_makes_a_ringing_note_decay_much_faster() {
    let mut held = string_at(220.0);
    held.pluck(1.0);
    let mut released = string_at(220.0);
    released.pluck(1.0);
    for _ in 0..2_000 {
        held.process();
        released.process();
    }
    released.string.release();
    for _ in 0..20_000 {
        held.process();
        released.process();
    }
    assert!(
        released.is_silent(),
        "released string should have reached silence, envelope {}",
        released.envelope()
    );
    assert!(
        !held.is_silent(),
        "unreleased twin should still be ringing for comparison"
    );
}

#[test]
fn release_before_plucking_is_harmless() {
    let mut string = string_at(440.0);
    string.string.release();
    for index in 0..1_000 {
        let sample = string.process();
        assert_eq!(sample, 0.0, "sample {index} was not silent");
    }
    assert!(string.is_silent());
}

#[test]
fn a_short_period_strike_keeps_injecting_contact_force_past_the_first_loop() {
    let mut string = string_at(4_000.0);
    string.pluck(1.0);
    let loop_length = string.loop_delay() as usize + 1;

    let mut early_energy = 0.0f32;
    for _ in 0..loop_length {
        let sample = string.process();
        early_energy += sample * sample;
    }
    let mut later_energy = 0.0f32;
    for _ in 0..(400 - loop_length) {
        let sample = string.process();
        later_energy += sample * sample;
    }
    assert!(
        later_energy > early_energy * 0.1,
        "later energy {later_energy} should be a substantial fraction of the \
         first loop's {early_energy}, not a rapidly decaying tail with nothing \
         still being injected"
    );
}

#[test]
fn re_plucking_after_release_lifts_the_damper_again() {
    let mut string = string_at(440.0);
    string.pluck(1.0);
    string.string.release();
    for _ in 0..4_000 {
        string.process();
    }
    assert!(string.is_silent(), "the released note should have died out");

    string.pluck(1.0);
    for _ in 0..2_000 {
        string.process();
    }
    assert!(
        !string.is_silent(),
        "re-plucking after release should undamp the string and let it ring again"
    );
}

fn harmonic_string_struck_at(frequency: f32, strike_position: f32) -> Played {
    let mut config = StringConfig::new(hz(frequency));
    config.inharmonicity = bits(0.0);
    config.strike_position = bits(strike_position);
    Played::built(config)
}

/// Windowed magnitude at one frequency.
fn partial_at(samples: &[f32], frequency_hz: f32, sample_rate: f32) -> f32 {
    let n = samples.len() as f64;
    let (mut re, mut im) = (0.0f64, 0.0f64);
    for (index, &sample) in samples.iter().enumerate() {
        let window = 0.5 - 0.5 * (core::f64::consts::TAU * index as f64 / n).cos();
        let phase = core::f64::consts::TAU * f64::from(frequency_hz) * index as f64
            / f64::from(sample_rate);
        re += window * f64::from(sample) * phase.cos();
        im -= window * f64::from(sample) * phase.sin();
    }
    (re * re + im * im).sqrt() as f32
}

fn render_attack(string: &mut Played, samples: usize) -> Vec<f32> {
    string.pluck(1.0);
    (0..samples).map(|_| string.process()).collect()
}

#[test]
fn striking_at_one_eighth_attenuates_the_eighth_partial() {
    let fundamental = 220.0;
    let sample_rate = 48_000.0;
    let h8 = |strike: f32| {
        let mut string = harmonic_string_struck_at(fundamental, strike);
        let attack = render_attack(&mut string, 4_096);
        partial_at(&attack, fundamental * 8.0, sample_rate)
    };
    assert!(
        h8(0.125) < 0.4 * h8(0.0),
        "the 1/8 strike's H8 ({}) should be a fraction of the no-comb H8 ({})",
        h8(0.125),
        h8(0.0)
    );
}

#[test]
fn moving_the_strike_position_moves_the_notch() {
    let fundamental = 220.0;
    let sample_rate = 48_000.0;
    let h8_at = |strike: f32| {
        let mut string = harmonic_string_struck_at(fundamental, strike);
        let attack = render_attack(&mut string, 4_096);
        partial_at(&attack, fundamental * 8.0, sample_rate)
    };
    assert!(
        h8_at(1.0 / 16.0) > 2.0 * h8_at(1.0 / 8.0),
        "H8 should be far louder struck at 1/16 ({}) than at 1/8 ({})",
        h8_at(1.0 / 16.0),
        h8_at(1.0 / 8.0)
    );
}

#[test]
fn re_striking_one_string_reproduces_the_attack_sample_for_sample() {
    let mut string = string_at(196.0);
    let first = render_attack(&mut string, 4_096);
    let second = render_attack(&mut string, 4_096);
    assert_eq!(first, second, "the second strike diverged from the first");
}

#[test]
fn a_purely_deterministic_strike_never_consults_the_noise_generator() {
    let deterministic = |seed: u32| {
        let mut config = StringConfig::new(hz(196.0));
        config.seed = seed;
        config.excitation_noise_mix = bits(0.0);
        render_attack(&mut Played::built(config), 4_096)
    };
    assert_eq!(deterministic(0x2545_F491), deterministic(0xDEAD_BEEF));
}

#[test]
fn set_excitation_noise_mix_changes_the_next_strike_without_affecting_the_current_one() {
    let mut left = string_at(196.0);
    let mut right = string_at(196.0);
    left.pluck(0.8);
    right.pluck(0.8);
    for _ in 0..64 {
        assert_eq!(left.process(), right.process());
    }
    right.string.set_excitation_noise_mix(bits(1.0));
    for _ in 0..64 {
        assert_eq!(
            left.process(),
            right.process(),
            "a ringing string was disturbed"
        );
    }
    left.pluck(0.8);
    right.pluck(0.8);
    let mut differed = false;
    for _ in 0..256 {
        if left.process() != right.process() {
            differed = true;
        }
    }
    assert!(differed, "the mix change never reached the next strike");
}

#[test]
fn block_processing_adds_into_the_buffer() {
    let mut string = string_at(440.0);
    string.pluck(1.0);
    let mut twin = string_at(440.0);
    twin.pluck(1.0);
    let mut buffer = [bits(1.0); 64];
    arithmetic().process_block_add(&mut string.string, &mut string.path, &mut buffer);
    assert!(buffer.iter().any(|sample| (number(*sample) - 1.0).abs() > 1e-6));
    for sample in buffer {
        assert_eq!(number(sample), 1.0 + twin.process());
    }
}

#[test]
fn unison_is_silent_before_being_plucked() {
    let mut group = group_at(220.0, 3);
    for _ in 0..1_000 {
        assert_eq!(group.process(), 0.0);
    }
    assert!(group.group.is_silent());
    assert!(!group.group.is_receptive());
}

#[test]
fn plucking_lifts_the_damper_and_produces_signal() {
    let mut group = group_at(220.0, 3);
    group.pluck(1.0);
    assert!(group.group.is_receptive());
    let peak = (0..4_800).map(|_| group.process().abs()).fold(0.0f32, f32::max);
    assert!(peak > 0.05, "peak {peak} is inaudible");
}

const UNISON_BOUND: f32 = 16.0;

#[test]
fn output_stays_bounded_for_a_full_second_with_local_coupling() {
    let mut group = group_at(220.0, 3);
    group.pluck(1.0);
    for index in 0..48_000 {
        let sample = group.process();
        assert!(sample.is_finite(), "sample {index} was not finite");
        assert!(
            sample.abs() < UNISON_BOUND,
            "sample {index} = {sample} escaped"
        );
    }
}

#[test]
fn output_stays_bounded_with_global_bridge_coupling() {
    let mut group = group_at(220.0, 3);
    let mut bridge = BridgeBus::with_capacity(128, zero());
    group.pluck(1.0);
    for block_index in 0..400 {
        bridge.begin_block();
        for sample_index in 0..128 {
            let sample = group.process_with_bridge(&mut bridge, sample_index);
            assert!(
                sample.is_finite(),
                "block {block_index} sample {sample_index} was not finite"
            );
            assert!(
                sample.abs() < UNISON_BOUND,
                "block {block_index} sample {sample_index} = {sample} escaped"
            );
        }
    }
}

#[test]
fn changing_local_coupling_gain_measurably_changes_the_output() {
    let mut coupled = group_at(220.0, 3);
    let mut uncoupled = group_at(220.0, 3);
    uncoupled.group.set_local_coupling_gain(bits(0.0));
    coupled.pluck(1.0);
    uncoupled.pluck(1.0);
    let difference: f32 =
        (0..2_000).map(|_| (coupled.process() - uncoupled.process()).abs()).sum();
    assert!(
        difference > 1e-3,
        "zeroing local_coupling_gain did not change the output: diff {difference}"
    );
}

fn key(midi: u8) -> PianoKey {
    PianoKey::from_midi(midi).expect("key is on the keyboard")
}

fn plain_voicing(midi: u8) -> KeyVoicing {
    key_voicing(key(midi), Tuning::default(), rate(), RegisterOverrides::default())
}

fn voicing(midi: u8, registers: RegisterOverrides) -> KeyVoicing {
    key_voicing(key(midi), Tuning::default(), rate(), registers)
}

fn hertz(midi: u8) -> f32 {
    number(key_frequency(key(midi), Tuning::default()).hertz())
}

fn achieved_decay_seconds(midi: u8, partial: f32) -> f32 {
    let frequency = hertz(midi);
    let voicing = plain_voicing(midi);
    let filter = LoopFilter::new(voicing.damping, voicing.zero_mix);
    let filter_gain = magnitude_at(&filter, frequency * partial, 48_000.0);
    let loss = -(number(voicing.sustain) * filter_gain).ln();
    -SILENCE_THRESHOLD.ln() / (frequency * loss)
}

const BASS_DECAY_SECONDS: f32 = 35.0;
const TREBLE_DECAY_SECONDS: f32 = 1.5;

#[test]
fn bass_keys_get_more_inharmonicity_than_default_and_treble_keys_more_still() {
    let bass = number(plain_voicing(LOWEST_PIANO_KEY).inharmonicity);
    let treble = number(plain_voicing(108).inharmonicity);
    assert!(bass < treble);
}

#[test]
fn every_key_gets_a_finite_in_range_voicing() {
    for midi in LOWEST_PIANO_KEY..=108 {
        let voicing = plain_voicing(midi);
        assert!((0.0..=1.0).contains(&number(voicing.damping)));
        assert!((0.0..=1.0).contains(&number(voicing.sustain)));
        assert!((0.0..=0.05).contains(&number(voicing.inharmonicity)));
        assert!((0.0..=0.5).contains(&number(voicing.zero_mix)));
    }
}

#[test]
fn upper_partials_decay_several_times_faster_than_the_fundamental() {
    for (name, midi, brightness_partial, band) in [
        ("A0", 21, BRIGHTNESS_PARTIAL, 4.0..9.0),
        ("A4", 69, BRIGHTNESS_PARTIAL, 4.0..9.0),
        ("C8", 108, 5.16, 2.0..6.0),
    ] {
        let fundamental = achieved_decay_seconds(midi, 1.0);
        let bright = achieved_decay_seconds(midi, brightness_partial);
        let ratio = fundamental / bright;
        assert!(
            band.contains(&ratio),
            "{name}: H1 {fundamental:.2}s / H{brightness_partial:.1} {bright:.2}s \
             gives a ratio of {ratio:.2}, outside the documented band {band:?}"
        );
    }
}

#[test]
fn the_solve_spends_sustain_rather_than_leaving_it_at_unity() {
    for midi in [21, 69, 108] {
        let sustain = number(plain_voicing(midi).sustain);
        assert!(
            sustain < 1.0,
            "MIDI {midi} left sustain at {sustain}, so nothing is damping its fundamental"
        );
    }
}

#[test]
fn every_fundamental_lands_within_a_factor_of_two_of_its_target() {
    let anchors = resolve_anchors(RegisterOverrides::default());
    let pitches = AnchorPitches {
        bass: bits(hertz(21)),
        mid: bits(hertz(69)),
        treble: bits(hertz(108)),
    };
    for midi in LOWEST_PIANO_KEY..=108 {
        let targets = decay_targets_for(
            bits(hertz(midi)),
            pitches,
            anchors,
            &interpolate_log_frequency,
        );
        let target = number(targets.fundamental);
        let achieved = achieved_decay_seconds(midi, 1.0);
        assert!(
            achieved > target * 0.5 && achieved < target * 2.0,
            "MIDI {midi} targets {target:.2}s but the solve delivers {achieved:.2}s"
        );
    }
}

#[test]
fn treble_keys_ring_for_less_time_than_bass_keys() {
    let bass = achieved_decay_seconds(21, 1.0);
    let treble = achieved_decay_seconds(108, 1.0);
    assert!(
        treble < bass,
        "treble decay {treble}s should be shorter than bass decay {bass}s"
    );
}

#[test]
fn interpolation_never_produces_non_finite_values_across_odd_tunings() {
    let tuning = Tuning::with_concert_a(bits(220.0)).expect("220 Hz is a valid tuning");
    for midi in LOWEST_PIANO_KEY..=108 {
        let voicing = key_voicing(key(midi), tuning, rate(), RegisterOverrides::default());
        assert!(number(voicing.damping).is_finite());
        assert!(number(voicing.sustain).is_finite());
        assert!(number(voicing.inharmonicity).is_finite());
        assert!(number(voicing.zero_mix).is_finite());
    }
}

#[test]
fn the_pole_axis_inverts_its_own_loss_shape() {
    for axis in [0.0f32, 0.25, 0.5, 0.75, 1.0] {
        let pole = pole_for_axis(axis);
        let recovered = 4.0 * pole / ((1.0 - pole) * (1.0 - pole));
        let (low, high) = (MIN_POLE_SHAPE.ln(), MAX_POLE_SHAPE.ln());
        let expected = (low + axis * (high - low)).exp();
        assert!(
            (recovered / expected - 1.0).abs() < 1e-2,
            "axis {axis} gave pole {pole}, whose shape is {recovered}, not {expected}"
        );
    }
}

#[test]
fn the_zero_mix_axis_inverts_its_own_loss_shape() {
    for axis in [0.0f32, 0.25, 0.5, 0.75, 1.0] {
        let zero_mix = zero_mix_for_axis(axis);
        let recovered = 4.0 * zero_mix * (1.0 - zero_mix);
        assert!(
            (recovered - axis).abs() < 1e-4,
            "axis {axis} gave zero_mix {zero_mix}, whose shape is {recovered}"
        );
        assert!((0.0..=0.5).contains(&zero_mix));
    }
}

#[test]
fn the_target_curve_falls_monotonically_with_partial_index() {
    let targets = DecayTargets {
        fundamental: bits(BASS_DECAY_SECONDS),
        mid_partial: bits(18.0),
        brightness: bits(6.0),
    };
    let mut previous = f32::INFINITY;
    for step in 0..64u16 {
        let partial = 1.0 + f32::from(step) * 7.0 / 63.0;
        let seconds = seconds_for_partial(targets, partial);
        assert!(
            seconds < previous,
            "partial {partial} rose to {seconds}s from {previous}s"
        );
        previous = seconds;
    }
}

#[test]
fn c8_is_fitted_below_nyquist_and_a0_gets_the_full_eighth_partial() {
    let c8 = solved_partials(hertz(108), 48_000.0);
    let a0 = solved_partials(hertz(21), 48_000.0);
    let highest_c8 = c8.last().copied().expect("three partials");
    assert!(
        (MIN_SOLVED_PARTIAL..BRIGHTNESS_PARTIAL).contains(&highest_c8),
        "C8 was fitted at partial {highest_c8}, which does not fit under Nyquist"
    );
    assert_eq!(a0.last().copied().expect("three partials"), BRIGHTNESS_PARTIAL);
}

fn measured_decay_seconds(midi: u8) -> f32 {
    let mut string = Played::built(key_config(key(midi), Tuning::default(), rate()));
    string.pluck(1.0);
    let sample_count_cap = (48_000.0 * BASS_DECAY_SECONDS * 1.5) as u32;
    let mut samples_elapsed = 0u32;
    while !string.is_silent() && samples_elapsed < sample_count_cap {
        let _ = string.process();
        samples_elapsed += 1;
    }
    samples_elapsed as f32 / 48_000.0
}

#[test]
fn treble_notes_no_longer_die_in_milliseconds() {
    let measured = measured_decay_seconds(108);
    assert!(
        measured > TREBLE_DECAY_SECONDS * 0.7,
        "measured {measured}s should land close to the {TREBLE_DECAY_SECONDS}s target"
    );
}

#[test]
fn a_mid_register_note_rings_for_seconds_not_fractions_of_one() {
    let measured = measured_decay_seconds(69);
    assert!(
        measured > 2.0,
        "A4 fell silent after {measured}s; it should ring for seconds"
    );
}

#[test]
fn overriding_the_bass_decay_target_moves_the_bass_fundamental_without_moving_treble() {
    let baseline = plain_voicing(21);
    let mut overrides = RegisterOverrides::default();
    overrides.bass.decay_seconds = Some(bits(BASS_DECAY_SECONDS * 3.0));
    let overridden = voicing(21, overrides);
    assert_ne!(
        baseline.sustain, overridden.sustain,
        "tripling the bass decay target did not change the solved sustain"
    );
    assert_eq!(
        plain_voicing(108).sustain,
        voicing(108, overrides).sustain,
        "overriding the bass anchor moved the treble anchor too"
    );
}

#[test]
fn overriding_an_inharmonicity_anchor_lands_there_and_leaves_the_others_alone() {
    let mut overrides = RegisterOverrides::default();
    overrides.bass.inharmonicity = Some(bits(0.05));
    let bass = number(voicing(21, overrides).inharmonicity);
    assert!(
        (bass - 0.05).abs() < 1e-4,
        "bass anchor inharmonicity was {bass}, not the overridden 0.05"
    );
    assert_eq!(
        plain_voicing(108).inharmonicity,
        voicing(108, overrides).inharmonicity,
        "overriding the bass anchor's inharmonicity moved the treble anchor too"
    );
}

#[test]
fn an_unset_middle_inharmonicity_anchor_matches_the_original_two_point_line() {
    let (bass_hz, mid_hz, treble_hz) = (bits(hertz(21)), bits(hertz(69)), bits(hertz(108)));
    let two_point_line = number(interpolate_log_frequency(
        mid_hz,
        (bass_hz, bits(0.000_1)),
        (treble_hz, bits(0.05)),
    ));
    let pitches = AnchorPitches { bass: bass_hz, mid: mid_hz, treble: treble_hz };
    let anchors = resolve_anchors(RegisterOverrides::default());
    let three_point =
        number(inharmonicity_for(mid_hz, pitches, anchors, &interpolate_log_frequency));
    assert!(
        (two_point_line - three_point).abs() < 1e-6,
        "an unset middle anchor changed the curve: {two_point_line} vs {three_point}"
    );
}

#[test]
fn moving_an_anchor_position_shifts_where_its_curve_starts() {
    let probe = LOWEST_PIANO_KEY + 5;
    let baseline = plain_voicing(probe);
    let mut overrides = RegisterOverrides::default();
    overrides.bass.anchor_midi = Some(probe);
    overrides.bass.decay_seconds = Some(bits(BASS_DECAY_SECONDS * 5.0));
    let moved = voicing(probe, overrides);
    assert_ne!(
        baseline.sustain, moved.sustain,
        "moving the bass anchor onto this key did not change its own voicing"
    );
}

#[test]
fn report_the_solved_voicing_at_each_anchor() {
    for (name, midi) in [("A0", 21u8), ("A4", 69), ("C8", 108)] {
        let voicing = plain_voicing(midi);
        println!(
            "{name} f0={:7.1} Hz  pole={:.5} zero_mix={:.5} sustain={:.6}",
            hertz(midi),
            number(voicing.damping),
            number(voicing.zero_mix),
            number(voicing.sustain),
        );
        for partial in [1.0f32, 3.0, 8.0] {
            println!("  H{partial} rings {:.2}s", achieved_decay_seconds(midi, partial));
        }
    }
}

fn renderer() -> Renderer {
    Renderer::new(rate(), Tuning::default(), None)
}

fn press(renderer: &mut Renderer, midi: u8) {
    let (mut session, mut consumer) = AudioSession::open(rate());
    assert!(session.note_on(midi, bits(0.8)), "queue has room");
    renderer.drain_commands(&mut consumer);
}

#[test]
fn a_note_on_command_produces_sound() {
    let mut renderer = renderer();
    let (mut session, mut consumer) = AudioSession::open(rate());
    session.note_on(69, bits(1.0));
    renderer.drain_commands(&mut consumer);
    let mut buffer = [0.0f32; 512];
    renderer.process_block(&mut buffer);
    assert!(buffer.iter().any(|sample| sample.abs() > 1e-3));
    session.all_notes_off();
    renderer.drain_commands(&mut consumer);
    // Only the soundboard still rings.
    let mut silenced = [0.0f32; 48_000];
    renderer.process_block(&mut silenced);
    assert!(silenced[47_000..].iter().all(|sample| sample.abs() < 1e-2));
}

fn tail_rms(renderer: &mut Renderer, blocks: usize) -> f32 {
    let mut rendered = Vec::with_capacity(blocks * 512);
    for _ in 0..blocks {
        let mut buffer = [0.0f32; 512];
        renderer.process_block(&mut buffer);
        rendered.extend_from_slice(&buffer);
    }
    let tail = rendered.split_off(rendered.len() - rendered.len() / 4);
    let mean_square = tail.iter().map(|s| s * s).sum::<f32>() / tail.len() as f32;
    mean_square.sqrt()
}

#[test]
fn holding_one_key_does_not_shorten_the_next_note_struck() {
    let mut alone = renderer();
    press(&mut alone, 60);
    let solo_tail = tail_rms(&mut alone, 200);

    let mut accompanied = renderer();
    press(&mut accompanied, 69);
    let _ = tail_rms(&mut accompanied, 100);
    press(&mut accompanied, 60);
    let polyphonic_tail = tail_rms(&mut accompanied, 200);
    assert!(
        polyphonic_tail > solo_tail * 0.9,
        "C4's tail collapsed to {polyphonic_tail:e} against {solo_tail:e} played alone"
    );
}

#[test]
fn set_soundboard_mode_measurably_changes_the_soundboard_tail() {
    let mut quiet = renderer();
    let mut loud = renderer();
    let (mut session, mut consumer) = AudioSession::open(rate());
    let mode = SoundboardMode {
        frequency_hz: bits(300.0),
        decay_seconds: bits(2.0),
        gain: bits(3.0),
    };
    session.set_soundboard_mode(0, mode);
    loud.drain_commands(&mut consumer);
    for renderer in [&mut quiet, &mut loud] {
        session.note_on(69, bits(1.0));
        renderer.drain_commands(&mut consumer);
    }
    let mut quiet_out = [0.0f32; 512];
    let mut loud_out = [0.0f32; 512];
    quiet.process_block(&mut quiet_out);
    loud.process_block(&mut loud_out);
    assert_ne!(
        quiet_out.to_vec(),
        loud_out.to_vec(),
        "SetSoundboardMode had no audible effect"
    );
}

#[test]
fn a_released_voice_is_skipped_before_a_second_is_over() {
    for mix in [0.5, 0.0] {
        let mut renderer = renderer();
        let (mut session, mut consumer) = AudioSession::open(rate());
        session.set_soundboard_mix_gain(bits(mix));
        session.note_on(69, bits(1.0));
        renderer.drain_commands(&mut consumer);
        assert!(!renderer.engine.is_inert(48), "key 48 is A4");
        session.note_off(69);
        renderer.drain_commands(&mut consumer);
        let mut buffer = vec![0.0f32; 48_000];
        renderer.process_block(&mut buffer);
        assert!(renderer.engine.is_inert(48), "only the soundboard may still ring");
        let tail = buffer.get(buffer.len() - 128..).expect("buffer has at least 128 samples");
        // The strings are silent; what the board radiates is still dying away.
        let bound = if mix == 0.0 { 1e-3 } else { 4e-3 };
        assert!(tail.iter().all(|sample| sample.abs() < bound));
    }
}

#[test]
fn the_pedal_lets_other_strings_ring_along() {
    let mut open = renderer();
    open.set_sustain_pedal(true);
    open.note_on(45, 1.0);
    let mut dry = renderer();
    dry.note_on(45, 1.0);
    let mut with_pedal = vec![0.0f32; 9_600];
    let mut without = vec![0.0f32; 9_600];
    open.process_block(&mut with_pedal);
    dry.process_block(&mut without);
    assert!(with_pedal.iter().all(|sample| sample.is_finite() && sample.abs() <= 1.0));
    assert_ne!(with_pedal, without, "no other string took anything from the bridge");
    open.note_off(45);
    open.set_sustain_pedal(false);
    let mut after = vec![0.0f32; 48_000];
    open.process_block(&mut after);
    assert!(after[47_000..].iter().all(|sample| sample.abs() < 1e-2));
}

#[test]
fn every_live_command_keeps_the_output_finite() {
    let mut renderer = renderer();
    let (mut session, mut consumer) = AudioSession::open(rate());
    session.note_on(60, bits(1.0));
    session.set_damping(bits(0.9));
    session.set_sustain(bits(0.99));
    session.set_local_coupling_gain(bits(1.0));
    session.set_global_coupling_gain(bits(1.0));
    session.set_master_gain(bits(4.0));
    session.set_soundboard_mix_gain(bits(2.0));
    session.set_string_damping(60, 0, bits(f32::NAN));
    session.set_string_detune(60, 1, bits(40.0));
    session.set_string_detune(60, 1, bits(f32::INFINITY));
    session.set_string_inharmonicity(60, 2, bits(0.05));
    session.set_string_seed(60, 2, 0);
    session.set_string_hammer(60, 2, HammerConfig { mass: bits(0.0), ..HammerConfig::default() });
    session.note_on(60, bits(f32::NAN));
    session.note_on(200, bits(1.0));
    renderer.drain_commands(&mut consumer);
    let mut buffer = vec![0.0f32; 4_800];
    renderer.process_block(&mut buffer);
    assert!(buffer.iter().all(|sample| sample.is_finite() && sample.abs() <= 1.0));
}

/// Renders one string of a key, faded out at the end.
fn render(midi: u8, velocity: f32, seconds: f32) -> Vec<f32> {
    let count = duration_to_samples(bits(seconds), bits(seconds * 48_000.0))
        .expect("the duration can be rendered");
    let frequency = key_frequency(key(midi), Tuning::default());
    let mut string = Played::built(StringConfig::new(frequency));
    string.pluck(velocity);
    let mut samples = vec![zero(); count];
    arithmetic().process_block_add(&mut string.string, &mut string.path, &mut samples);
    let length = (f32::from_bits(FADE_OUT_SECONDS_BITS) * 48_000.0) as usize;
    let ramp = |place: usize, length: usize| bits(1.0 - place as f32 * (1.0 / length as f32));
    apply_fade_out(&mut samples, length, &ramp, &times);
    samples.into_iter().map(number).collect()
}

#[test]
fn rendered_audio_is_finite_and_audible() {
    let samples = render(69, 0.8, 1.0);
    assert!(samples.iter().all(|sample| sample.is_finite()));
    let peak = samples.iter().fold(0.0f32, |worst, sample| worst.max(sample.abs()));
    assert!(peak > 0.01, "peak {peak} is inaudible");
}

#[test]
fn the_render_ends_in_silence() {
    let samples = render(69, 0.8, 1.0);
    assert_eq!(samples.last().copied().unwrap_or(1.0), 0.0);
}

#[test]
fn slopes_are_scaled_by_the_steepest() {
    let force = [0.0, 0.25, 1.0, 0.5].map(bits);
    let scale = |active: usize| number(slope_scale(&force, active, &minus, &invert));
    assert_eq!(scale(4), 1.0 / 0.75);
    assert_eq!(scale(99), 1.0 / 0.75, "no more than there is");
    assert_eq!(scale(2), 4.0);
    assert_eq!(scale(1), 0.0);
    assert_eq!(scale(0), 0.0);
    let flat = [0.5; 4].map(bits);
    assert_eq!(number(slope_scale(&flat, 4, &minus, &invert)), 0.0);
    assert_eq!(number(slope_scale(&[], 4, &minus, &invert)), 0.0);
}

#[test]
fn the_board_comes_before_the_master_gain_and_the_limiter() {
    let mut engine = Engine::new(vec![None; KEY_COUNT]);
    let mut board = ResonatorBank::new(&Soundboard::new(), &|mode: SoundboardMode| mode.gain);
    // Every one of the eight modes passes what drives it.
    let pass = |_: Binary32, _: Binary32, _: Binary32, drive: Binary32| drive;
    let knee = |_: Binary32, threshold: Binary32| threshold;
    let mut block = [0.0625, -0.0625, f32::NAN].map(bits);
    engine.mix_down(&mut block, 0, 3, &mut board, &pass, &plus, &times, &knee);
    assert_eq!(number(block[0]), 0.0625 + 0.5 * 8.0 * 0.0625);
    assert_eq!(number(block[1]), -0.312_5);
    assert_eq!(number(block[2]), 0.0, "what is not a number is silent");
    let settings = settings(48_000.0);
    let louder = Command::SetMasterGain { gain: bits(4.0) };
    engine.apply(louder, &power, &settings.detune, &settings.retuned);
    let mut block = [0.0625, -0.0625].map(bits);
    engine.mix_down(&mut block, 0, 2, &mut board, &pass, &plus, &times, &knee);
    assert_eq!(number(block[0]), 0.9);
    assert_eq!(number(block[1]), -0.9);
}

#[test]
fn a_cleared_path_is_as_good_as_new() {
    let mut string = string_at(330.0);
    string.pluck(0.9);
    for _ in 0..777 {
        string.process();
    }
    string.set_damping(0.2);
    string.path.clear();
    let path = &string.path;
    assert_eq!(number(path.loop_filter.pole), 0.2, "the tuning stays");
    assert_eq!(path.loop_filter, LoopFilter::new(bits(0.2), path.loop_filter.zero_mix));
    assert_eq!(path.dc_blocker, DcBlocker::default());
    assert!(path.pending.is_none());
    for delay in 0..path.line.capacity() {
        assert_eq!(number(path.line.read(delay)), 0.0);
    }
    for _ in 0..100 {
        assert_eq!(string.process(), 0.0);
    }
}

#[test]
fn strings_with_different_pasts_answer_one_strike_alike() {
    let mut fresh = string_at(82.4);
    let mut rung = string_at(82.4);
    rung.pluck(0.3);
    for _ in 0..1_234 {
        rung.process();
    }
    rung.string.release();
    fresh.pluck(0.7);
    rung.pluck(0.7);
    for _ in 0..5_000 {
        assert_eq!(fresh.process(), rung.process());
    }
}

/// The magnitudes of a windowed discrete Fourier transform.
fn magnitude_spectrum(samples: &[f32]) -> (Vec<f32>, usize) {
    let length = samples.len().next_power_of_two();
    let span = (samples.len().max(2) - 1) as f32;
    let mut values: Vec<(f32, f32)> = (0..length)
        .map(|index| {
            let phase = core::f32::consts::TAU * index as f32 / span;
            let window = 0.5 - 0.5 * phase.cos();
            (samples.get(index).copied().unwrap_or(0.0) * window, 0.0)
        })
        .collect();
    transform(&mut values);
    (values.iter().map(|(re, im)| re.hypot(*im)).collect(), length)
}

/// A radix-two transform of a power of two of values, in place.
fn transform(values: &mut [(f32, f32)]) {
    let length = values.len();
    if length < 2 {
        return;
    }
    let mut even: Vec<(f32, f32)> = values.iter().step_by(2).copied().collect();
    let mut odd: Vec<(f32, f32)> = values.iter().skip(1).step_by(2).copied().collect();
    transform(&mut even);
    transform(&mut odd);
    for index in 0..length / 2 {
        let angle = -core::f64::consts::TAU * index as f64 / length as f64;
        let (sin, cos) = (angle.sin() as f32, angle.cos() as f32);
        let (re, im) = odd[index];
        let turned = (re * cos - im * sin, re * sin + im * cos);
        values[index] = (even[index].0 + turned.0, even[index].1 + turned.1);
        values[index + length / 2] = (even[index].0 - turned.0, even[index].1 - turned.1);
    }
}

fn peak_frequency_near(spectrum: &[f32], length: usize, target_hz: f32, search_hz: f32) -> f32 {
    let bin_hz = 48_000.0 / length as f32;
    let center_bin = (target_hz / bin_hz).round() as i64;
    let span = (search_hz / bin_hz).round() as i64;
    let mut best_bin = center_bin;
    let mut best_magnitude = -1.0f32;
    for bin in (center_bin - span).max(0)..=center_bin + span {
        if let Some(&magnitude) = spectrum.get(bin as usize) {
            if magnitude > best_magnitude {
                best_magnitude = magnitude;
                best_bin = bin;
            }
        }
    }
    best_bin as f32 * bin_hz
}

fn spectral_centroid(samples: &[f32]) -> f32 {
    let (spectrum, length) = magnitude_spectrum(samples);
    let bin_hz = 48_000.0 / length as f32;
    let mut weighted = 0.0f64;
    let mut total = 0.0f64;
    for (bin, magnitude) in spectrum.iter().take(length / 2).enumerate() {
        weighted += f64::from(bin as f32 * bin_hz) * f64::from(*magnitude);
        total += f64::from(*magnitude);
    }
    if total <= 0.0 {
        0.0
    } else {
        (weighted / total) as f32
    }
}

#[test]
fn partials_sit_measurably_sharp_of_an_exact_harmonic_series() {
    let samples = render(69, 0.9, 2.0);
    let start = (0.1 * 48_000.0) as usize;
    let length = 32_768.min(samples.len() - start);
    let (spectrum, fft_len) = magnitude_spectrum(&samples[start..start + length]);
    let fundamental = 440.0;
    let mut deviations = Vec::new();
    for partial in 1..=8u32 {
        let expected = fundamental * partial as f32;
        let measured = peak_frequency_near(&spectrum, fft_len, expected, expected * 0.05);
        deviations.push(1200.0 * (measured / expected).log2());
    }
    println!("measured partial deviations (cents): {deviations:?}");
    assert!(deviations[0].abs() < 5.0, "fundamental drifted {} cents", deviations[0]);
    assert!(
        deviations[6] > deviations[0] + 1.0,
        "partial 7 ({} cents) is not measurably sharper than the fundamental ({} cents)",
        deviations[6],
        deviations[0]
    );
    assert!(
        deviations[6] > deviations[3],
        "sharpening does not grow with partial number: partial 4 {} cents, partial 7 {} cents",
        deviations[3],
        deviations[6]
    );
}

const ATTACK_SECONDS: f32 = 0.005;

fn attack(samples: &[f32]) -> &[f32] {
    let length = (ATTACK_SECONDS * 48_000.0) as usize;
    &samples[..length.min(samples.len())]
}

fn loudest(samples: &[f32]) -> f32 {
    samples.iter().fold(0.0f32, |worst, s| worst.max(s.abs()))
}

#[test]
fn the_attack_is_a_felt_hammer_rather_than_a_broadband_click() {
    let centroid = spectral_centroid(attack(&render(69, 0.8, 0.5)));
    println!("attack centroid: {centroid:.1} Hz");
    assert!(
        centroid < 8_000.0,
        "the first {ATTACK_SECONDS} s measures {centroid} Hz, which is a click, not felt"
    );
}

#[test]
fn a_harder_strike_is_brighter_in_the_attack_itself_not_only_over_the_note() {
    let soft = spectral_centroid(attack(&render(40, 0.15, 0.5)));
    let hard = spectral_centroid(attack(&render(40, 0.95, 0.5)));
    println!("attack centroid at E2: soft {soft:.1} Hz, hard {hard:.1} Hz");
    assert!(
        hard > soft + 500.0,
        "only {} Hz separates a pianissimo attack ({soft} Hz) from a fortissimo one ({hard} Hz); \
         the excitation is still essentially velocity-independent in frequency",
        hard - soft
    );
}

#[test]
fn the_attack_does_not_tower_over_the_note_it_starts() {
    let samples = render(69, 0.8, 0.5);
    let body_start = (0.02 * 48_000.0) as usize;
    let body_end = (0.1 * 48_000.0) as usize;
    let attack_peak = loudest(attack(&samples));
    let body_peak = loudest(&samples[body_start..body_end]);
    println!("attack peak {attack_peak:.4}, body peak {body_peak:.4}");
    assert!(
        attack_peak < 1.0,
        "a single string peaks at {attack_peak}, so a unison group clips before anything is mixed"
    );
    assert!(
        attack_peak < body_peak * 6.0,
        "the attack ({attack_peak}) is more than six times the body ({body_peak})"
    );
    assert!(
        attack_peak > body_peak,
        "the attack ({attack_peak}) no longer stands out from the body ({body_peak}) at all"
    );
}

const BLOCK_SAMPLES: usize = 4_800;

fn unison_peaks_per_block(unison_count: usize) -> Vec<f32> {
    let mut group = group_at(440.0, unison_count);
    group.pluck(0.9);
    let samples: Vec<f32> = (0..48_000 * 5).map(|_| group.process()).collect();
    samples.chunks(BLOCK_SAMPLES).map(loudest).collect()
}

fn decay_rate_nepers_per_block(peaks: &[f32], start: usize, end: usize) -> f32 {
    let floor: f32 = 1e-9;
    let first = peaks.get(start).copied().unwrap_or(floor).max(floor);
    let last = peaks.get(end).copied().unwrap_or(floor).max(floor);
    let blocks = end.saturating_sub(start).max(1) as f32;
    (first.ln() - last.ln()) / blocks
}

#[test]
fn a_trichord_note_decays_faster_at_first_than_once_it_has_settled() {
    let peaks = unison_peaks_per_block(3);
    let early_rate = decay_rate_nepers_per_block(&peaks, 1, 4);
    let late_rate = decay_rate_nepers_per_block(&peaks, 30, 45);
    assert!(
        early_rate > late_rate * 1.5,
        "early decay rate {early_rate} nepers/block was not measurably faster than the \
         settled rate {late_rate} nepers/block - the two-stage signature did not emerge"
    );
}

#[test]
fn a_trichord_note_settles_close_to_its_own_single_string_decay_rate() {
    let trichord_settled_rate = decay_rate_nepers_per_block(&unison_peaks_per_block(3), 30, 45);
    let mono_rate = decay_rate_nepers_per_block(&unison_peaks_per_block(1), 30, 45);
    let ratio = trichord_settled_rate / mono_rate.max(1e-6);
    assert!(
        (0.5..2.0).contains(&ratio),
        "settled trichord decay rate {trichord_settled_rate} nepers/block is not close to the \
         monochord's own {mono_rate} nepers/block (ratio {ratio})"
    );
}

#[test]
fn setting_a_soundboard_mode_live_measurably_shifts_the_spectral_centroid() {
    let mut before = soundboard();
    let mut after = soundboard();
    let mode = SoundboardMode {
        frequency_hz: bits(8_000.0),
        decay_seconds: bits(0.3),
        gain: bits(2.5),
    };
    after.rebuild(0, resonator(mode, 48_000.0));
    let play = |board: &mut ResonatorBank<ModeCoefficients>| -> Vec<f32> {
        (0..2_048).map(|index| radiate(board, if index == 0 { 1.0 } else { 0.0 })).collect()
    };
    let before_centroid = spectral_centroid(&play(&mut before));
    let after_centroid = spectral_centroid(&play(&mut after));
    assert!(
        (after_centroid - before_centroid).abs() > 50.0,
        "retuning mode 0 to 8 kHz did not measurably shift the centroid: \
         before {before_centroid} Hz, after {after_centroid} Hz"
    );
}

#[test]
fn zeroing_local_coupling_gain_live_measurably_changes_the_spectral_centroid() {
    let mut coupled = group_at(440.0, 3);
    let mut uncoupled = group_at(440.0, 3);
    uncoupled.group.set_local_coupling_gain(bits(0.0));
    coupled.pluck(0.9);
    uncoupled.pluck(0.9);
    let coupled_samples: Vec<f32> = (0..4_096).map(|_| coupled.process()).collect();
    let uncoupled_samples: Vec<f32> = (0..4_096).map(|_| uncoupled.process()).collect();
    let coupled_centroid = spectral_centroid(&coupled_samples);
    let uncoupled_centroid = spectral_centroid(&uncoupled_samples);
    assert!(
        (coupled_centroid - uncoupled_centroid).abs() > 1.0,
        "zeroing local_coupling_gain did not measurably shift the centroid: \
         coupled {coupled_centroid} Hz, uncoupled {uncoupled_centroid} Hz"
    );
}

/// The peak of every second of a minute of the lowest key.
fn bass_window_peaks() -> Vec<f32> {
    let mut config = StringConfig::new(hz(27.5));
    config.damping = bits(0.6);
    let round_trips = (27.5f32 * 35.0).max(1.0);
    config.sustain = bits((1e-4f32.ln() / round_trips).exp().clamp(0.0, 1.0));
    config.inharmonicity = bits(0.000_1);
    let mut string = Played::built(config);
    string.pluck(1.0);
    // The windows are whole blocks of 128 samples, 375 to the second.
    (0..60)
        .map(|_| {
            (0..375 * 128).fold(0.0f32, |worst, _| {
                let sample = string.process();
                assert!(sample.is_finite());
                worst.max(sample.abs())
            })
        })
        .collect()
}

#[test]
fn a60_second_a0_render_is_finite_throughout() {
    assert!(bass_window_peaks().iter().all(|peak| peak.is_finite()));
}

#[test]
fn a60_second_a0_render_decays_monotonically_in_windows() {
    let window_peaks = bass_window_peaks();
    let mut violations = 0usize;
    for pair in window_peaks.windows(2).skip(1) {
        if pair[1] > pair[0] * (1.0 + 1e-6) {
            violations += 1;
        }
    }
    assert_eq!(
        violations, 0,
        "found {violations} window(s) where the envelope rose instead of decaying: \
         {window_peaks:?}"
    );
}

#[test]
fn a60_second_a0_render_does_not_stall_in_the_tail() {
    let window_peaks = bass_window_peaks();
    let at_30s = window_peaks.get(29).copied().expect("60 s render has a 30 s window");
    let at_60s = window_peaks.last().copied().expect("60 s render has a final window");
    assert!(at_60s.is_finite() && at_30s.is_finite());
    assert!(
        at_60s < at_30s * 0.5,
        "tail did not keep decaying: 30s peak {at_30s:e}, 60s peak {at_60s:e} (expected 60s peak \
         below half of 30s peak)"
    );
}

#[test]
fn a_string_sounds_as_the_sum_of_its_steps() {
    let mut whole = string_at(220.0);
    let mut parts = string_at(220.0);
    whole.pluck(0.7);
    parts.pluck(0.7);
    for _ in 0..500 {
        let (tap, signal) = parts.tap_and_disperse();
        assert_eq!(parts.feed_back(tap, signal, 0.0).to_bits(), whole.process().to_bits());
    }
    assert_eq!(parts.string, whole.string);
}

#[test]
fn a_second_equal_strike_plays_the_same_samples() {
    let mut string = string_at(196.0);
    let play = |string: &mut Played| -> Vec<u32> {
        string.pluck(0.6);
        (0..2_000).map(|_| string.process().to_bits()).collect()
    };
    let first = play(&mut string);
    string.string.release();
    for _ in 0..333 {
        string.process();
    }
    assert_eq!(play(&mut string), first);
    string.pluck(0.9);
    assert_ne!((0..2_000).map(|_| string.process().to_bits()).collect::<Vec<u32>>(), first);
}

#[test]
fn a_note_with_a_silent_bridge_sounds_as_without_one() {
    for count in 1..=3 {
        let mut alone = group_at(220.0, count);
        let mut bridged = group_at(220.0, count);
        alone.pluck(0.8);
        bridged.pluck(0.8);
        let mut bus = BridgeBus::with_capacity(128, zero());
        bus.begin_block();
        for index in 0..128 {
            let heard = bridged.process_with_bridge(&mut bus, index);
            assert_eq!(heard.to_bits(), alone.process().to_bits());
        }
        assert_eq!(bridged.group, alone.group);
        let mut differs = false;
        for _ in 0..4 {
            bus.begin_block();
            for index in 0..128 {
                differs |= bridged.process_with_bridge(&mut bus, index) != alone.process();
            }
        }
        assert!(differs, "the bridge drives what it heard a block ago");
    }
}

#[test]
fn a_note_is_the_sum_of_what_its_strings_give() {
    let mut note = group_at(220.0, 3);
    note.pluck(0.8);
    note.group.release();
    // With every damper down no string hears another.
    let mut strings: Vec<(PluckedString, Path)> = Vec::new();
    let mut other = group_at(220.0, 3);
    other.pluck(0.8);
    other.group.release();
    for (index, path) in other.paths.into_iter().enumerate() {
        strings.push((other.group.string(index).expect("there are three"), path));
    }
    for _ in 0..300 {
        let mut sum = 0.0f32;
        for (string, path) in &mut strings {
            sum += number(arithmetic().process(string, path));
        }
        assert_eq!(note.process().to_bits(), sum.to_bits());
    }
}

#[test]
fn where_a_block_is_cut_between_chunks_does_not_matter() {
    let render = |cuts: &[usize]| -> Vec<u32> {
        let mut renderer = renderer();
        renderer.note_on(57, 0.8);
        renderer.note_on(64, 0.4);
        let mut heard = Vec::new();
        for cut in cuts {
            let mut block = vec![bits(9.0); *cut];
            renderer.engine.process_block(
                &mut block,
                &mut renderer.paths,
                &mut renderer.bridge,
                &mut renderer.board,
                &arithmetic(),
                &ring,
                &saturate,
            );
            heard.extend(block.iter().map(|sample| sample.to_bits()));
        }
        heard
    };
    let whole = render(&[700]);
    assert_eq!(whole.len(), 700);
    assert!(whole.iter().any(|sample| f32::from_bits(*sample) != 0.0));
    assert_eq!(render(&[128, 572]), whole);
    assert_eq!(render(&[256, 0, 384, 60]), whole);
    assert_ne!(render(&[100, 600]), whole, "a chunk is one block of the bridge");
}

#[test]
fn a_block_of_an_untouched_instrument_is_silence_whatever_the_buffer_held() {
    let mut renderer = renderer();
    let mut block = [0.5f32; 300];
    renderer.process_block(&mut block);
    assert_eq!(block, [0.0; 300]);
}

#[test]
fn two_instruments_played_alike_sound_alike() {
    let render = || -> Vec<u32> {
        let mut renderer = renderer();
        renderer.set_sustain_pedal(true);
        let mut heard = Vec::new();
        for midi in [48, 55, 64, 84] {
            renderer.note_on(midi, 0.6);
            let mut block = [0.0f32; 200];
            renderer.process_block(&mut block);
            heard.extend(block.map(f32::to_bits));
        }
        heard
    };
    assert_eq!(render(), render());
}

fn ring_buffer() -> (rtrb::Producer<Command>, rtrb::Consumer<Command>) {
    ring_buffer_with_capacity(16)
}

fn ring_buffer_with_capacity(
    capacity: usize,
) -> (rtrb::Producer<Command>, rtrb::Consumer<Command>) {
    rtrb::RingBuffer::new(capacity)
}

#[test]
fn an_out_of_range_note_is_ignored_without_panicking() {
    let mut engine = renderer();
    let (mut producer, mut consumer) = ring_buffer();
    producer
        .push(Command::NoteOn { midi: 200, velocity: bits(1.0) })
        .expect("queue has room");
    engine.drain_commands(&mut consumer);

    let mut buffer = [0.0f32; 64];
    engine.process_block(&mut buffer);
    assert!(buffer.iter().all(|sample| *sample == 0.0));
}

#[test]
fn all_notes_off_silences_every_voice() {
    let mut engine = renderer();
    let (mut producer, mut consumer) = ring_buffer();
    producer
        .push(Command::NoteOn { midi: 69, velocity: bits(1.0) })
        .expect("queue has room");
    engine.drain_commands(&mut consumer);
    producer.push(Command::AllNotesOff).expect("queue has room");
    engine.drain_commands(&mut consumer);

    let mut buffer = [0.0f32; 64];
    engine.process_block(&mut buffer);
    assert!(buffer.iter().all(|sample| *sample == 0.0));
}

#[test]
fn striking_every_key_at_once_never_panics() {
    let mut engine = renderer();
    let (mut producer, mut consumer) = ring_buffer_with_capacity(KEY_COUNT);
    for midi in LOWEST_PIANO_KEY..=HIGHEST_PIANO_KEY {
        producer.push(Command::NoteOn { midi, velocity: bits(1.0) }).expect("queue has room");
    }
    engine.drain_commands(&mut consumer);

    let mut buffer = [0.0f32; 64];
    engine.process_block(&mut buffer);
    assert!(buffer.iter().any(|sample| sample.is_finite()));
}

#[test]
fn re_striking_the_same_key_never_panics() {
    let mut engine = renderer();
    let (mut producer, mut consumer) = ring_buffer_with_capacity(64);
    for _ in 0..64 {
        producer
        .push(Command::NoteOn { midi: 69, velocity: bits(0.9) })
        .expect("queue has room");
    }
    engine.drain_commands(&mut consumer);
    let mut buffer = [0.0f32; 64];
    engine.process_block(&mut buffer);
}

#[test]
fn flooding_the_queue_beyond_the_drain_cap_never_panics() {
    let mut engine = renderer();
    let (mut producer, mut consumer) = ring_buffer();
    for _ in 0..(MAX_COMMANDS_PER_CALLBACK + 8) {
        let _ = producer.push(Command::NoteOn { midi: 69, velocity: bits(0.5) });
    }
    engine.drain_commands(&mut consumer);
    let mut buffer = [0.0f32; 32];
    engine.process_block(&mut buffer);
}

#[test]
fn set_damping_reaches_an_already_ringing_voice() {
    let mut engine = renderer();
    let (mut producer, mut consumer) = ring_buffer();
    producer
        .push(Command::NoteOn { midi: 69, velocity: bits(1.0) })
        .expect("queue has room");
    engine.drain_commands(&mut consumer);

    let mut before = [0.0f32; 128];
    engine.process_block(&mut before);

    producer.push(Command::SetDamping { damping: bits(0.99) }).expect("queue has room");
    engine.drain_commands(&mut consumer);

    let mut after = [0.0f32; 128];
    engine.process_block(&mut after);
    assert_ne!(
        before.to_vec(),
        after.to_vec(),
        "SetDamping had no audible effect on a ringing voice"
    );
}

#[test]
fn set_sustain_never_panics_on_a_silent_engine() {
    let mut engine = renderer();
    let (mut producer, mut consumer) = ring_buffer();
    producer.push(Command::SetSustain { sustain: bits(0.2) }).expect("queue has room");
    engine.drain_commands(&mut consumer);
    let mut buffer = [0.0f32; 32];
    engine.process_block(&mut buffer);
    assert!(buffer.iter().all(|sample| *sample == 0.0));
}

#[test]
fn set_damping_out_of_range_never_panics() {
    let mut engine = renderer();
    let (mut producer, mut consumer) = ring_buffer();
    producer.push(Command::SetDamping { damping: bits(f32::NAN) }).expect("queue has room");
    producer.push(Command::SetDamping { damping: bits(50.0) }).expect("queue has room");
    engine.drain_commands(&mut consumer);
    let mut buffer = [0.0f32; 32];
    engine.process_block(&mut buffer);
}

#[test]
fn set_soundboard_mode_out_of_range_index_never_panics() {
    let mut engine = renderer();
    let (mut producer, mut consumer) = ring_buffer();
    producer
        .push(Command::SetSoundboardMode {
            index: 999,
            mode: SoundboardMode {
                frequency_hz: bits(f32::NAN),
                decay_seconds: bits(f32::NAN),
                gain: bits(f32::NAN),
            },
        })
        .expect("queue has room");
    engine.drain_commands(&mut consumer);
    let mut buffer = [0.0f32; 32];
    engine.process_block(&mut buffer);
}

#[test]
fn set_local_coupling_gain_reaches_an_already_ringing_voice() {
    let mut engine = renderer();
    let (mut producer, mut consumer) = ring_buffer();
    producer
        .push(Command::NoteOn { midi: 69, velocity: bits(1.0) })
        .expect("queue has room");
    engine.drain_commands(&mut consumer);

    let mut before = [0.0f32; 512];
    engine.process_block(&mut before);

    producer
        .push(Command::SetLocalCouplingGain { gain: bits(0.0) })
        .expect("queue has room");
    engine.drain_commands(&mut consumer);
    let mut after = [0.0f32; 512];
    engine.process_block(&mut after);
    assert_ne!(
        before.to_vec(),
        after.to_vec(),
        "SetLocalCouplingGain had no audible effect on a ringing voice"
    );
}

#[test]
fn set_string_damping_reaches_an_already_ringing_voice() {
    let mut engine = renderer();
    let (mut producer, mut consumer) = ring_buffer();
    producer
        .push(Command::NoteOn { midi: 69, velocity: bits(1.0) })
        .expect("queue has room");
    engine.drain_commands(&mut consumer);

    let mut before = [0.0f32; 512];
    engine.process_block(&mut before);

    producer
        .push(Command::SetStringDamping { midi: 69, string_index: 0, damping: bits(0.99) })
        .expect("queue has room");
    engine.drain_commands(&mut consumer);
    let mut after = [0.0f32; 512];
    engine.process_block(&mut after);
    assert_ne!(
        before.to_vec(),
        after.to_vec(),
        "SetStringDamping had no audible effect"
    );
}

#[test]
fn set_string_sustain_reaches_an_already_ringing_voice() {
    let mut engine = renderer();
    let (mut producer, mut consumer) = ring_buffer();
    producer
        .push(Command::NoteOn { midi: 69, velocity: bits(1.0) })
        .expect("queue has room");
    engine.drain_commands(&mut consumer);

    let mut before = [0.0f32; 512];
    engine.process_block(&mut before);

    producer
        .push(Command::SetStringSustain { midi: 69, string_index: 0, sustain: bits(0.01) })
        .expect("queue has room");
    engine.drain_commands(&mut consumer);
    let mut after = [0.0f32; 512];
    engine.process_block(&mut after);
    assert_ne!(
        before.to_vec(),
        after.to_vec(),
        "SetStringSustain had no audible effect"
    );
}

#[test]
fn set_string_inharmonicity_reaches_an_already_ringing_voice() {
    let mut engine = renderer();
    let (mut producer, mut consumer) = ring_buffer();
    producer
        .push(Command::NoteOn { midi: 69, velocity: bits(1.0) })
        .expect("queue has room");
    engine.drain_commands(&mut consumer);

    let mut before = [0.0f32; 512];
    engine.process_block(&mut before);

    producer
        .push(Command::SetStringInharmonicity { midi: 69, string_index: 0, inharmonicity: bits(0.05) })
        .expect("queue has room");
    engine.drain_commands(&mut consumer);
    let mut after = [0.0f32; 512];
    engine.process_block(&mut after);
    assert_ne!(
        before.to_vec(),
        after.to_vec(),
        "SetStringInharmonicity had no audible effect"
    );
}

#[test]
fn set_string_detune_reaches_an_already_ringing_voice() {
    let mut engine = renderer();
    let (mut producer, mut consumer) = ring_buffer();
    producer
        .push(Command::NoteOn { midi: 69, velocity: bits(1.0) })
        .expect("queue has room");
    engine.drain_commands(&mut consumer);

    let mut before = [0.0f32; 512];
    engine.process_block(&mut before);

    producer
        .push(Command::SetStringDetune { midi: 69, string_index: 0, cents: bits(40.0) })
        .expect("queue has room");
    engine.drain_commands(&mut consumer);
    let mut after = [0.0f32; 512];
    engine.process_block(&mut after);
    assert_ne!(
        before.to_vec(),
        after.to_vec(),
        "SetStringDetune had no audible effect"
    );
}

#[test]
fn set_string_seed_changes_the_next_strike() {
    let mut baseline = renderer();
    let mut reseeded = renderer();
    let (mut producer, mut consumer) = ring_buffer();

    producer
        .push(Command::SetStringSeed { midi: 69, string_index: 0, seed: 0xDEAD_BEEF })
        .expect("queue has room");
    reseeded.drain_commands(&mut consumer);

    for engine in [&mut baseline, &mut reseeded] {
        producer
        .push(Command::NoteOn { midi: 69, velocity: bits(1.0) })
        .expect("queue has room");
        engine.drain_commands(&mut consumer);
    }

    let mut baseline_out = [0.0f32; 512];
    let mut reseeded_out = [0.0f32; 512];
    baseline.process_block(&mut baseline_out);
    reseeded.process_block(&mut reseeded_out);
    assert_ne!(
        baseline_out.to_vec(),
        reseeded_out.to_vec(),
        "SetStringSeed had no effect on the next strike"
    );
}

#[test]
fn set_string_hammer_changes_the_next_strike() {
    let mut baseline = renderer();
    let mut retuned = renderer();
    let (mut producer, mut consumer) = ring_buffer();

    producer
        .push(Command::SetStringHammer {
            midi: 69,
            string_index: 0,
            hammer: HammerConfig {
                contact_exponent: bits(6.0),
                stiffness: bits(1.0e8),
                mass: bits(20.0),
            },
        })
        .expect("queue has room");
    retuned.drain_commands(&mut consumer);

    for engine in [&mut baseline, &mut retuned] {
        producer
        .push(Command::NoteOn { midi: 69, velocity: bits(1.0) })
        .expect("queue has room");
        engine.drain_commands(&mut consumer);
    }

    let mut baseline_out = [0.0f32; 512];
    let mut retuned_out = [0.0f32; 512];
    baseline.process_block(&mut baseline_out);
    retuned.process_block(&mut retuned_out);
    assert_ne!(
        baseline_out.to_vec(),
        retuned_out.to_vec(),
        "SetStringHammer had no effect on the next strike"
    );
}

#[test]
fn per_string_commands_with_an_unrecognised_midi_note_never_panic() {
    let mut engine = renderer();
    let (mut producer, mut consumer) = ring_buffer();
    producer
        .push(Command::SetStringDamping { midi: 255, string_index: 0, damping: bits(0.5) })
        .expect("queue has room");
    producer
        .push(Command::SetStringDetune { midi: 69, string_index: 250, cents: bits(10.0) })
        .expect("queue has room");
    engine.drain_commands(&mut consumer);
    let mut buffer = [0.0f32; 32];
    engine.process_block(&mut buffer);
}

#[test]
fn set_global_coupling_gain_out_of_range_never_panics() {
    let mut engine = renderer();
    let (mut producer, mut consumer) = ring_buffer();
    producer
        .push(Command::SetGlobalCouplingGain { gain: bits(f32::NAN) })
        .expect("queue has room");
    producer
        .push(Command::SetLocalCouplingGain { gain: bits(50.0) })
        .expect("queue has room");
    engine.drain_commands(&mut consumer);
    let mut buffer = [0.0f32; 32];
    engine.process_block(&mut buffer);
}

#[test]
fn note_off_while_the_pedal_is_down_does_not_release_until_pedal_up() {
    let mut engine = renderer();
    let (mut producer, mut consumer) = ring_buffer();
    producer.push(Command::SustainPedal { down: true }).expect("queue has room");
    producer
        .push(Command::NoteOn { midi: 69, velocity: bits(1.0) })
        .expect("queue has room");
    producer.push(Command::NoteOff { midi: 69 }).expect("queue has room");
    engine.drain_commands(&mut consumer);

    let mut held = vec![0.0f32; 9_600];
    engine.process_block(&mut held);
    let held_tail = held
        .get(held.len() - 128..)
        .expect("buffer has at least 128 samples");
    assert!(
        held_tail.iter().any(|sample| sample.abs() > 1e-3),
        "a pedal-held note-off should not have released the voice yet"
    );

    producer.push(Command::SustainPedal { down: false }).expect("queue has room");
    engine.drain_commands(&mut consumer);
    let mut released = vec![0.0f32; 48_000];
    engine.process_block(&mut released);
    let released_tail = released
        .get(released.len() - 128..)
        .expect("buffer has at least 128 samples");
    assert!(
        released_tail.iter().all(|sample| sample.abs() < 1e-3),
        "releasing the pedal should have released the held voice"
    );
}

#[test]
fn re_striking_a_pedal_held_key_cancels_its_pending_release() {
    let mut engine = renderer();
    let (mut producer, mut consumer) = ring_buffer();
    producer.push(Command::SustainPedal { down: true }).expect("queue has room");
    producer
        .push(Command::NoteOn { midi: 69, velocity: bits(1.0) })
        .expect("queue has room");
    producer.push(Command::NoteOff { midi: 69 }).expect("queue has room");
    producer
        .push(Command::NoteOn { midi: 69, velocity: bits(1.0) })
        .expect("queue has room");
    engine.drain_commands(&mut consumer);

    producer.push(Command::SustainPedal { down: false }).expect("queue has room");
    engine.drain_commands(&mut consumer);

    let mut buffer = vec![0.0f32; 4_800];
    engine.process_block(&mut buffer);
    assert!(
        buffer.iter().any(|sample| sample.abs() > 1e-3),
        "re-striking should have cancelled the pending pedal release"
    );
}

#[test]
fn note_off_on_an_out_of_range_note_never_panics() {
    let mut engine = renderer();
    let (mut producer, mut consumer) = ring_buffer();
    producer.push(Command::NoteOff { midi: 200 }).expect("queue has room");
    engine.drain_commands(&mut consumer);
    let mut buffer = [0.0f32; 64];
    engine.process_block(&mut buffer);
}

#[test]
fn a_note_the_engine_cannot_tune_is_ignored_without_panicking() {
    let rate = SampleRate::new(bits(8_000.0)).expect("8 kHz is valid");
    let mut engine = Renderer::new(rate, Tuning::default(), None);
    let (mut producer, mut consumer) = ring_buffer();
    let key = PianoKey::from_midi(HIGHEST_PIANO_KEY).expect("C8 is on the keyboard");
    producer
        .push(Command::NoteOn { midi: key.midi_number(), velocity: bits(1.0) })
        .expect("queue has room");
    engine.drain_commands(&mut consumer);
    let mut buffer = [0.0f32; 16];
    engine.process_block(&mut buffer);
}

#[test]
fn draining_carries_out_each_command_once_and_in_order() {
    let mut renderer = renderer();
    let (mut producer, mut consumer) = ring_buffer_with_capacity(72);
    for index in 0..72u32 {
        let command =
            Command::SetStringSeed { midi: 60, string_index: 0, seed: index };
        producer.push(command).expect("queue has room");
    }
    renderer.drain_commands(&mut consumer);
    assert_eq!(consumer.slots(), 8, "beyond the cap waits for the next callback");
    let seed = |renderer: &Renderer| renderer.engine.group(39).expect("C4 is tunable").first.seed;
    assert_eq!(seed(&renderer), 63, "the last one taken has the last word");
    renderer.drain_commands(&mut consumer);
    assert_eq!(consumer.slots(), 0);
    assert_eq!(seed(&renderer), 71);
}

#[test]
fn a_damping_that_was_set_is_in_every_filter_that_sounds() {
    let mut renderer = renderer();
    renderer.note_on(69, 1.0);
    let mut block = [0.0f32; 256];
    renderer.process_block(&mut block);
    let held = number(renderer.paths[48][0].line.read(0));
    let (mut producer, mut consumer) = ring_buffer();
    producer.push(Command::SetDamping { damping: bits(0.25) }).expect("queue has room");
    renderer.drain_commands(&mut consumer);
    for key in 0..KEY_COUNT {
        let group = renderer.engine.group(key).expect("every key is tunable at 48 kHz");
        for index in 0..group.len() {
            let string = group.string(index).expect("the string exists");
            let path = &renderer.paths[key][index];
            assert_eq!(number(string.damping), 0.25);
            assert_eq!(number(path.loop_filter.pole), 0.25);
            assert_eq!(string.loop_delay(), loop_length(&string, 48_000.0));
            assert_eq!(path.line.max_delay(), string.max_delay);
            assert_eq!(path.dispersion.active_sections(), string.sections);
        }
    }
    assert_eq!(number(renderer.paths[48][0].line.read(0)), held, "it rings on");
}

#[test]
fn the_settings_of_one_string_reach_that_string_only() {
    let mut renderer = renderer();
    let before = renderer.engine.group(48).expect("A4 is tunable");
    let other_pole = renderer.paths[48][0].loop_filter.pole;
    let (mut producer, mut consumer) = ring_buffer();
    producer
        .push(Command::SetStringDamping { midi: 69, string_index: 1, damping: bits(0.125) })
        .expect("queue has room");
    producer
        .push(Command::SetStringInharmonicity {
            midi: 69,
            string_index: 1,
            inharmonicity: bits(0.02),
        })
        .expect("queue has room");
    producer
        .push(Command::SetStringDetune { midi: 69, string_index: 2, cents: bits(40.0) })
        .expect("queue has room");
    renderer.drain_commands(&mut consumer);
    let after = renderer.engine.group(48).expect("A4 is tunable");
    assert_eq!(after.first, before.first);
    assert_eq!(renderer.paths[48][0].loop_filter.pole, other_pole);
    let second = after.string(1).expect("A4 has three strings");
    assert_eq!(number(renderer.paths[48][1].loop_filter.pole), 0.125);
    assert_eq!(
        renderer.paths[48][1].dispersion.coefficient(),
        coefficient_from_inharmonicity(bits(0.02), &bend)
    );
    assert_eq!(second.loop_delay(), loop_length(&second, 48_000.0));
    let third = after.string(2).expect("A4 has three strings");
    assert_eq!(number(third.frequency.hertz()), detuned(440.0, 40.0));
    assert_eq!(third.loop_delay(), loop_length(&third, 48_000.0));
    assert!(number(third.loop_delay()) < number(before.third.expect("three").loop_delay()));
}

#[test]
fn a_strike_rewinds_the_noise_to_its_own_seed() {
    let mut string = string_at(4_186.0);
    string.string.set_excitation_noise_mix(bits(1.0));
    string.pluck(0.9);
    let first: Vec<u32> = (0..300).map(|_| string.process().to_bits()).collect();
    string.pluck(0.9);
    let again: Vec<u32> = (0..300).map(|_| string.process().to_bits()).collect();
    assert_eq!(first, again, "the tail of the contact draws on from the burst");
    string.string.set_seed(7);
    string.pluck(0.9);
    let reseeded: Vec<u32> = (0..300).map(|_| string.process().to_bits()).collect();
    assert_ne!(first, reseeded);
}

#[test]
fn a_note_on_a_bridge_nobody_fed_sounds_as_alone_for_a_whole_run() {
    let mut alone = group_at(220.0, 3);
    let mut bridged = group_at(220.0, 3);
    alone.pluck(0.8);
    bridged.pluck(0.8);
    let mut bus = BridgeBus::with_capacity(4_096, zero());
    for index in 0..4_096 {
        let heard = bridged.process_with_bridge(&mut bus, index);
        assert_eq!(heard.to_bits(), alone.process().to_bits());
    }
}

#[test]
fn a_string_and_its_path_are_built_to_fit() {
    for frequency in [27.5, 440.0, 4_186.0] {
        let built = string_at(frequency);
        assert_eq!(built.path.line.max_delay(), built.string.max_delay);
        assert_eq!(built.path.dispersion.active_sections(), built.string.sections);
        assert_eq!(built.string.loop_delay(), loop_length(&built.string, 48_000.0));
    }
    let high = StringConfig::new(hz(20_000.0));
    let error = string_with_path(high, rate()).err();
    assert_eq!(
        error,
        Some(ParamError::FrequencyOutOfRange {
            frequency: bits(20_000.0),
            sample_rate: bits(48_000.0),
            maximum: bits(16_000.0),
        })
    );
}
