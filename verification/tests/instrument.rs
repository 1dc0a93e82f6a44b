use piano::binary32::Binary32;
use piano::bridge::BridgeBus;
use piano::coupling::Feedback;
use piano::delay::{rounded_capacity, DelayLine, MAX_CAPACITY, MIN_CAPACITY};
use piano::hammer::{
    integration_rate, sanitize_hammer, Contact, HammerConfig, PendingContact, Striker,
    MAX_CONTACT_SAMPLES,
};
use piano::noise::Xorshift32;
use piano::soundboard::{sanitize_mode, Soundboard, SoundboardMode, MODE_COUNT};
use piano::string::{LoopTuning, PluckedString, StringConfig, StrikePlan};
use piano::unison::{
    detune_cents, reseed_for_string, string_config, unison_count_for_key_index, StringTuning,
    UnisonGroup,
};
use piano::units::{Hz, ParamError, SampleRate};

fn bits(value: f32) -> Binary32 {
    Binary32::from_bits(value.to_bits())
}

fn number(value: Binary32) -> f32 {
    f32::from_bits(value.to_bits())
}

fn rate() -> SampleRate {
    SampleRate::new(bits(48_000.0)).expect("48 kHz is valid")
}

fn hz(frequency: f32) -> Hz {
    Hz::new(bits(frequency)).expect("frequency is valid")
}

/// The loop of a default string at `frequency`: the period less the delays of the
/// loss filter, of four dispersion sections and of the feedback path.
fn loop_of(frequency: f32) -> LoopTuning {
    let period = 48_000.0 / frequency;
    let pole = 0.5f32;
    let coefficient = -0.08f32;
    let sections = (8.0 - 1.5 * (frequency / 27.5).log2()).clamp(0.0, 8.0).round();
    let dispersion = sections * (1.0 - coefficient) / (1.0 + coefficient);
    let longest = period * 2.0f32.powf(100.0 / 1200.0) * 1.5;
    LoopTuning {
        loop_delay: bits(period - 0.5 - pole / (1.0 - pole) - dispersion - 1.0),
        maximum: bits(48_000.0 / 3.0),
        capacity: longest as usize + 4,
        sections: sections as usize,
    }
}

/// The loop of a string whose filters add two samples and a half.
fn retuned(string: PluckedString) -> Binary32 {
    bits(48_000.0 / number(string.frequency.hertz()) - 2.5)
}

/// Moves a frequency by some cents.
fn moved(hertz: Binary32, cents: Binary32) -> Binary32 {
    bits(number(hertz) * 2.0f32.powf(number(cents) / 1200.0))
}

/// A hammer with a felt in a state, and a strike's noise.
fn striker<S>(felt: S) -> Striker<S> {
    Striker { felt, noise: Xorshift32::default() }
}

fn string_at(frequency: f32) -> PluckedString {
    PluckedString::new(StringConfig::new(hz(frequency)), rate(), loop_of(frequency))
        .expect("frequency is representable at 48 kHz")
}

fn tunings(frequency: f32, count: usize) -> Vec<StringTuning> {
    (0..count.clamp(1, 3))
        .map(|index| {
            let cents = number(detune_cents(count, index));
            let detuned = frequency * 2.0f32.powf(cents / 1200.0);
            StringTuning { detuned: bits(detuned), tuning: loop_of(detuned) }
        })
        .collect()
}

fn group_at(frequency: f32, count: usize) -> UnisonGroup {
    let config = StringConfig::new(hz(frequency));
    UnisonGroup::new(config, count, rate(), &tunings(frequency, count))
        .expect("frequency is representable at 48 kHz")
}

fn read_between(line: &DelayLine<f32>, delay: f32) -> f32 {
    let taps = line.read_interpolated(bits(delay));
    let fraction = number(taps.delay) - taps.whole as f32;
    taps.earlier + (taps.later - taps.earlier) * fraction
}

#[test]
fn capacity_is_rounded_up_to_a_power_of_two() {
    assert_eq!(DelayLine::with_capacity(100, 0.0f32).capacity(), 128);
    assert_eq!(DelayLine::with_capacity(128, 0.0f32).capacity(), 128);
}

#[test]
fn capacity_is_clamped_into_range() {
    assert_eq!(DelayLine::with_capacity(0, 0.0f32).capacity(), MIN_CAPACITY);
    assert_eq!(DelayLine::with_capacity(usize::MAX, 0.0f32).capacity(), MAX_CAPACITY);
}

#[test]
fn delay_starts_silent() {
    let line = DelayLine::with_capacity(16, 0.0f32);
    assert_eq!(line.read(0), 0.0);
    assert_eq!(line.read(15), 0.0);
}

#[test]
fn reads_back_what_was_written() {
    let mut line = DelayLine::with_capacity(8, 0.0f32);
    for value in 1..=4u8 {
        line.write(f32::from(value));
    }
    assert_eq!(line.read(0), 4.0);
    assert_eq!(line.read(1), 3.0);
    assert_eq!(line.read(3), 1.0);
}

#[test]
fn interpolates_between_neighbours() {
    let mut line = DelayLine::with_capacity(8, 0.0f32);
    line.write(0.0);
    line.write(10.0);
    assert_eq!(read_between(&line, 0.5), 5.0);
}

#[test]
fn clear_silences_the_line() {
    let mut line = DelayLine::with_capacity(8, 0.0f32);
    line.write(1.0);
    line.clear();
    assert_eq!(line.read(0), 0.0);
}

#[test]
fn a_line_remembers_as_much_as_it_holds() {
    let mut line = DelayLine::with_capacity(8, 0u32);
    for value in 1..=20 {
        line.write(value);
    }
    for age in 0..8 {
        assert_eq!(line.read(age), 20 - age as u32);
        assert_eq!(line.read(age + 8 * 1_000), 20 - age as u32, "long delays wrap");
    }
    assert_eq!(line.max_delay(), 7);
    assert_eq!(line.read(usize::MAX), line.read(7));
}

#[test]
fn any_fractional_delay_can_be_read() {
    let mut line = DelayLine::with_capacity(4, 0.0f32);
    for value in [1.0, 2.0, 3.0, 4.0] {
        line.write(value);
    }
    assert_eq!(read_between(&line, f32::NAN), 4.0);
    assert_eq!(read_between(&line, -7.0), 4.0);
    assert_eq!(read_between(&line, 1.25), 2.75);
    assert_eq!(read_between(&line, 1e9), 1.0);
    assert_eq!(line.read_interpolated(bits(f32::INFINITY)).whole, 3);
}

#[test]
fn the_strike_comb_subtracts_an_earlier_sample() {
    let mut line = DelayLine::with_capacity(8, 0.0f32);
    for value in [1.0, 2.0, 4.0, 8.0] {
        line.write(value);
    }
    let untouched = line.clone();
    line.apply_strike_comb(4, 0, &|own: f32, earlier: f32| own - earlier);
    for age in 0..8 {
        assert_eq!(line.read(age), untouched.read(age));
    }
    line.apply_strike_comb(4, 2, &|own: f32, earlier: f32| own - earlier);
    // The first two samples reach back into silence.
    assert_eq!(line.read(3), 1.0);
    assert_eq!(line.read(2), 2.0);
    assert_eq!(line.read(1), 3.0);
    assert_eq!(line.read(0), 6.0);
    assert_eq!(line.read(4), 0.0);
}

/// What a string reads back: the mean of what was put in one block before.
fn add_and_read(bus: &mut BridgeBus<f32>, index: usize, contribution: f32) -> f32 {
    match bus.add_and_read(index, contribution, &|sum: f32, addend: f32| sum + addend) {
        Some(slot) => slot.sum / slot.count as f32,
        None => 0.0,
    }
}

#[test]
fn bridge_starts_silent() {
    let mut bus = BridgeBus::with_capacity(8, 0.0f32);
    assert_eq!(add_and_read(&mut bus, 0, 0.0), 0.0);
}

#[test]
fn a_contribution_is_read_back_only_after_the_next_block_begins() {
    let mut bus = BridgeBus::with_capacity(8, 0.0f32);
    assert_eq!(
        add_and_read(&mut bus, 2, 5.0),
        0.0,
        "not visible within the same block yet"
    );
    bus.begin_block();
    assert_eq!(
        add_and_read(&mut bus, 2, 0.0),
        5.0,
        "visible in the following block"
    );
}

#[test]
fn contributions_at_the_same_index_are_averaged_not_summed() {
    let mut bus = BridgeBus::with_capacity(8, 0.0f32);
    add_and_read(&mut bus, 1, 3.0);
    add_and_read(&mut bus, 1, 5.0);
    bus.begin_block();
    assert_eq!(
        add_and_read(&mut bus, 1, 0.0),
        4.0,
        "mean of 3.0 and 5.0, not their sum"
    );
}

#[test]
fn the_readback_never_exceeds_the_largest_single_contribution() {
    let mut bus = BridgeBus::with_capacity(4, 0.0f32);
    for contributor in 0..87i16 {
        let _ = add_and_read(&mut bus, 0, f32::from(contributor % 3));
    }
    bus.begin_block();
    let readback = add_and_read(&mut bus, 0, 0.0);
    assert!(
        readback <= 2.0,
        "readback {readback} exceeded every contribution"
    );
}

#[test]
fn a_new_block_does_not_carry_over_the_block_before_last() {
    let mut bus = BridgeBus::with_capacity(8, 0.0f32);
    add_and_read(&mut bus, 0, 1.0);
    bus.begin_block();
    bus.begin_block();
    assert_eq!(add_and_read(&mut bus, 0, 0.0), 0.0, "two blocks old is gone");
}

#[test]
fn zero_capacity_is_floored_rather_than_rejected() {
    let bus = BridgeBus::with_capacity(0, 0.0f32);
    assert_eq!(bus.capacity(), 1);
}

#[test]
fn an_out_of_range_index_never_panics() {
    let mut bus = BridgeBus::with_capacity(4, 0.0f32);
    assert_eq!(add_and_read(&mut bus, usize::MAX, 1.0), 0.0);
    bus.begin_block();
    assert_eq!(add_and_read(&mut bus, usize::MAX, 0.0), 0.0);
}

#[test]
fn a_single_string_group_needs_no_detuning() {
    assert_eq!(number(detune_cents(1, 0)), 0.0);
}

#[test]
fn bichord_strings_are_detuned_symmetrically() {
    assert_eq!(number(detune_cents(2, 0)) + number(detune_cents(2, 1)), 0.0);
    assert_ne!(detune_cents(2, 0), detune_cents(2, 1));
}

#[test]
fn trichord_middle_string_is_not_detuned() {
    assert_eq!(number(detune_cents(3, 1)), 0.0);
}

#[test]
fn strings_are_detuned_by_a_few_cents() {
    assert_eq!(number(detune_cents(2, 0)), -2.5);
    assert_eq!(number(detune_cents(2, 1)), 2.5);
    assert_eq!(number(detune_cents(3, 0)), -4.0);
    assert_eq!(number(detune_cents(3, 2)), 4.0);
    assert_eq!(number(detune_cents(3, 3)), 0.0);
    assert_eq!(number(detune_cents(0, 0)), 0.0);
}

#[test]
fn unison_count_matches_the_documented_register_boundaries() {
    assert_eq!(unison_count_for_key_index(0), 1);
    assert_eq!(unison_count_for_key_index(11), 1);
    assert_eq!(unison_count_for_key_index(12), 2);
    assert_eq!(unison_count_for_key_index(29), 2);
    assert_eq!(unison_count_for_key_index(30), 3);
    assert_eq!(unison_count_for_key_index(87), 3);
}

#[test]
fn lift_damper_makes_an_idle_group_receptive_without_a_strike() {
    let mut group = group_at(220.0, 2);
    assert!(!group.is_receptive());
    group.lift_damper();
    assert!(group.is_receptive());
    // Still silent: lifting the damper is not a strike.
    assert!(group.is_silent());
}

#[test]
fn releasing_re_engages_the_damper_and_blocks_receptiveness() {
    let mut group = group_at(220.0, 3);
    group.mark_struck(bits(1.0));
    group.release();
    assert!(!group.is_receptive());
}

#[test]
fn set_local_coupling_gain_clamps_into_zero_one() {
    let mut group = group_at(220.0, 3);
    group.set_local_coupling_gain(bits(-5.0));
    assert_eq!(number(group.local_coupling_gain), 0.0);
    group.set_local_coupling_gain(bits(5.0));
    assert_eq!(number(group.local_coupling_gain), 1.0);
}

#[test]
fn set_global_coupling_gain_clamps_into_zero_one() {
    let mut group = group_at(220.0, 3);
    group.set_global_coupling_gain(bits(-5.0));
    assert_eq!(number(group.global_coupling_gain), 0.0);
    group.set_global_coupling_gain(bits(5.0));
    assert_eq!(number(group.global_coupling_gain), 1.0);
}

#[test]
fn a_new_group_is_silent_and_weakly_coupled() {
    let group = group_at(220.0, 3);
    assert!(group.is_silent());
    assert!(!group.is_receptive());
    assert_eq!(group.receptive_count(), 0);
    assert_eq!(number(group.local_coupling_gain), 0.15);
    assert_eq!(number(group.global_coupling_gain), 0.08);
    assert_eq!(number(group.envelope()), 0.0);
}

#[test]
fn groups_have_one_to_three_strings() {
    for (asked, given) in [(0, 1), (1, 1), (2, 2), (3, 3), (7, 3)] {
        let config = StringConfig::new(hz(220.0));
        let group = UnisonGroup::new(config, asked, rate(), &tunings(220.0, 3))
            .expect("220 Hz is representable");
        assert_eq!(group.len(), given);
        assert_eq!(group.string(given), None);
        let seeds: Vec<u32> =
            (0..given).map(|index| group.string(index).expect("the string exists").seed).collect();
        assert_eq!(seeds[0], config.seed);
        for (index, seed) in seeds.iter().enumerate() {
            assert_eq!(*seed, reseed_for_string(config.seed, index));
        }
    }
}

#[test]
fn every_string_has_a_seed_of_its_own() {
    for base in [0u32, 1, 0x2545_F491, u32::MAX, 0x9E37_79B1] {
        let seeds = [0, 1, 2].map(|index| reseed_for_string(base, index));
        assert_eq!(seeds, [base, base ^ 0x9E37_79B1, base ^ 0x85EB_CA77]);
        assert_ne!(seeds[0], seeds[1]);
        assert_ne!(seeds[0], seeds[2]);
        assert_ne!(seeds[1], seeds[2]);
        assert_eq!(reseed_for_string(base, 3), base);
    }
}

#[test]
fn a_group_fails_with_its_first_impossible_string() {
    let config = StringConfig::new(hz(15_000.0));
    let mut loops = tunings(220.0, 3);
    loops[1].detuned = bits(15_001.0);
    loops[1].tuning.loop_delay = bits(1.5);
    loops[2].detuned = bits(15_002.0);
    loops[2].tuning.loop_delay = bits(1.0);
    assert_eq!(
        UnisonGroup::new(config, 3, rate(), &loops),
        Err(ParamError::FrequencyOutOfRange {
            frequency: bits(15_001.0),
            sample_rate: bits(48_000.0),
            maximum: bits(16_000.0),
        })
    );
    assert!(UnisonGroup::new(config, 1, rate(), &loops).is_ok());
}

#[test]
fn an_unusable_detuned_frequency_keeps_the_notes_own() {
    let base = StringConfig::new(hz(220.0));
    assert_eq!(string_config(base, 1, bits(f32::NAN)).frequency, base.frequency);
    assert_eq!(number(string_config(base, 1, bits(221.0)).frequency.hertz()), 221.0);
}

#[test]
fn one_string_can_be_changed_without_the_others() {
    let before = group_at(220.0, 3);
    let mut group = before;
    group.set_string_damping(1, bits(2.0), &retuned);
    group.set_string_sustain(1, bits(-1.0));
    group.set_string_inharmonicity(1, bits(0.01), &retuned);
    group.set_string_seed(1, 42);
    group.set_string_detune(1, bits(15.0), &moved, &retuned);
    let hammer = HammerConfig { mass: bits(2.0), ..HammerConfig::default() };
    group.set_string_hammer(1, hammer);
    let changed = group.string(1).expect("the second string exists");
    assert_eq!(number(changed.damping), 1.0);
    assert_eq!(number(changed.sustain), 0.0);
    assert_eq!(number(changed.inharmonicity), 0.01);
    assert_eq!(changed.seed, 42);
    let frequency = 220.0 * 2.0f32.powf(15.0 / 1200.0);
    assert_eq!(number(changed.frequency.hertz()), frequency);
    assert_eq!(number(changed.loop_delay()), 48_000.0 / frequency - 2.5);
    assert_eq!(changed.hammer, hammer);
    assert_eq!(group.string(0), before.string(0));
    assert_eq!(group.string(2), before.string(2));
    // A string the group does not have is ignored.
    let mut unchanged = before;
    unchanged.set_string_damping(3, bits(0.1), &retuned);
    unchanged.set_string_seed(250, 7);
    assert_eq!(unchanged, before);
}

#[test]
fn the_loudest_string_is_the_groups_level() {
    let mut group = group_at(220.0, 3);
    group.mark_struck(bits(0.25));
    assert_eq!(number(group.envelope()), 0.25);
    let mut third = group.string(2).expect("the third string exists");
    third.track_envelope(bits(-0.75), bits(0.1));
    group.replace_string(2, third);
    assert_eq!(number(group.envelope()), 0.75);
    assert_eq!(group.receptive_count(), 3);
}

#[test]
fn rejects_frequencies_above_the_representable_range() {
    let config = StringConfig::new(hz(30_000.0));
    assert!(matches!(
        PluckedString::new(config, rate(), loop_of(30_000.0)),
        Err(ParamError::FrequencyOutOfRange { .. })
    ));
}

#[test]
fn set_sustain_does_not_change_loop_delay() {
    let mut string = string_at(440.0);
    let before = string.loop_delay();
    string.set_sustain(bits(0.5));
    assert_eq!(string.loop_delay(), before);
}

#[test]
fn release_does_not_change_loop_delay() {
    let mut string = string_at(440.0);
    let before = string.loop_delay();
    string.mark_struck(bits(1.0));
    string.release();
    assert_eq!(string.loop_delay(), before);
}

#[test]
fn a_new_string_has_the_documented_voicing() {
    let string = string_at(440.0);
    assert_eq!(number(string.damping), 0.5);
    assert_eq!(number(string.sustain), 0.996);
    assert_eq!(number(string.inharmonicity), 0.000_4);
    assert_eq!(string.seed, 0x2545_F491);
    assert_eq!(number(string.hammer.contact_exponent), 2.5);
    assert_eq!(number(string.hammer.stiffness), 1.7e9);
    assert_eq!(number(string.hammer.mass), 1.0);
    assert_eq!(number(string.loop_zero_mix), 0.5);
    assert_eq!(number(string.strike_position), 0.125);
    assert_eq!(number(string.excitation_noise_mix), 0.7);
    assert!(string.damper_engaged());
    assert!(string.is_silent());
}

#[test]
fn live_parameters_stay_in_range() {
    let mut string = string_at(440.0);
    for value in [f32::NAN, -1.0, f32::NEG_INFINITY] {
        string.set_damping(bits(value), &retuned);
        string.set_sustain(bits(value));
        string.set_inharmonicity(bits(value), &retuned);
        string.set_strike_position(bits(value));
        string.set_excitation_noise_mix(bits(value));
        assert_eq!(number(string.damping), 0.0);
        assert_eq!(number(string.sustain), 0.0);
        assert_eq!(number(string.inharmonicity), 0.0);
        assert_eq!(number(string.strike_position), 0.0);
        assert_eq!(number(string.excitation_noise_mix), 0.0);
    }
    for value in [2.0, f32::INFINITY] {
        string.set_damping(bits(value), &retuned);
        string.set_sustain(bits(value));
        string.set_inharmonicity(bits(value), &retuned);
        string.set_strike_position(bits(value));
        string.set_excitation_noise_mix(bits(value));
        assert_eq!(number(string.damping), 1.0);
        assert_eq!(number(string.sustain), 1.0);
        assert_eq!(number(string.inharmonicity), 0.05);
        assert_eq!(number(string.strike_position), 0.5);
        assert_eq!(number(string.excitation_noise_mix), 1.0);
    }
}

#[test]
fn retuning_stays_inside_the_delay_line() {
    let mut string = string_at(440.0);
    assert_eq!(string.max_delay + 1, rounded_capacity(loop_of(440.0).capacity));
    string.retune_loop_delay(bits(100.25));
    assert_eq!(number(string.loop_delay()), 100.25);
    string.retune_loop_delay(bits(-3.0));
    assert_eq!(number(string.loop_delay()), 2.0);
    string.retune_loop_delay(bits(f32::NAN));
    assert_eq!(number(string.loop_delay()), 2.0);
    string.retune_loop_delay(bits(1e9));
    assert_eq!(number(string.loop_delay()), string.max_delay as f32 - 1.0);
}

#[test]
fn a_strike_lifts_the_damper_and_sets_the_level() {
    let mut string = string_at(440.0);
    assert_eq!(number(string.mark_struck(bits(3.0))), 1.0);
    assert!(!string.damper_engaged());
    assert_eq!(number(string.envelope()), 1.0);
    let times = |left: Binary32, right: Binary32| bits(number(left) * number(right));
    assert_eq!(number(string.loop_gain(&times)), 0.996);
    assert_eq!(number(string.envelope_decay()), 0.999_5);
    string.release();
    assert!(string.damper_engaged());
    assert_eq!(number(string.loop_gain(&times)), 0.996 * 0.4);
    assert_eq!(number(string.envelope_decay()), 0.995);
    assert_eq!(number(string.mark_struck(bits(f32::NAN))), 0.0);
    assert!(string.is_silent());
    assert!(!string.damper_engaged());
}

#[test]
fn the_envelope_follows_the_louder_of_signal_and_memory() {
    let mut string = string_at(440.0);
    string.track_envelope(bits(-0.5), bits(0.25));
    assert_eq!(number(string.envelope()), 0.5);
    string.track_envelope(bits(0.1), bits(0.4));
    assert_eq!(number(string.envelope()), 0.4);
    string.track_envelope(bits(f32::NAN), bits(0.3));
    assert_eq!(number(string.envelope()), 0.3);
    string.track_envelope(bits(0.0), bits(9e-5));
    assert!(string.is_silent());
    string.track_envelope(bits(0.0), bits(1e-4));
    assert!(!string.is_silent(), "the threshold itself is audible");
    string.track_envelope(bits(1e-30), bits(1e-30));
    assert_eq!(number(string.envelope()), 0.0);
}

#[test]
fn a_strike_fills_one_loop_and_its_comb_stays_inside() {
    let mut string = string_at(440.0);
    string.retune_loop_delay(bits(100.75));
    let reach = 0.125 * 100.75 + 0.5;
    assert_eq!(
        string.plan_strike(bits(reach)),
        StrikePlan { burst_length: 101, reflected_from: 100, reflection_delay: 99, comb_delay: 13 }
    );
    let widest = string.plan_strike(bits(1e6));
    assert_eq!(widest.comb_delay, string.max_delay - 101);
    assert_eq!(string.plan_strike(bits(f32::NAN)).comb_delay, 0);
    string.retune_loop_delay(bits(1e9));
    assert_eq!(string.plan_strike(bits(50.0)).comb_delay, 0);
}

#[test]
fn hammers_are_kept_sane() {
    let wild = HammerConfig {
        contact_exponent: bits(f32::NAN),
        stiffness: bits(f32::INFINITY),
        mass: bits(0.0),
    };
    let sane = sanitize_hammer(wild);
    assert_eq!(number(sane.contact_exponent), 0.5);
    assert_eq!(number(sane.stiffness), 1.7e11);
    assert_eq!(number(sane.mass), 0.01);
    let softest = sanitize_hammer(HammerConfig {
        contact_exponent: bits(9.0),
        stiffness: bits(1.0),
        mass: bits(1e9),
    });
    assert_eq!(number(softest.contact_exponent), 8.0);
    assert_eq!(number(softest.stiffness), 1.7e7);
    assert_eq!(number(softest.mass), 100.0);
    assert_eq!(sanitize_hammer(HammerConfig::default()), HammerConfig::default());
}

#[test]
fn contacts_are_integrated_at_a_trusted_rate() {
    for (asked, used) in [
        (48_000.0, 48_000.0),
        (1_000.0, 1_000.0),
        (1e7, 1e7),
        (999.0, 48_000.0),
        (1.1e7, 48_000.0),
        (f32::NAN, 48_000.0),
        (f32::INFINITY, 48_000.0),
        (-44_100.0, 48_000.0),
    ] {
        assert_eq!(number(integration_rate(bits(asked))), used);
    }
}

#[test]
fn a_contact_ends_when_the_hammer_leaves_or_the_cap_is_reached() {
    let mut contact = Contact::starting();
    assert!(!contact.is_over(), "the first step is always taken");
    assert_eq!(number(contact.compress(bits(25.0))), 10.0);
    contact.record(bits(3.0));
    assert!(!contact.is_over());
    assert_eq!(number(contact.compress(bits(-0.5))), 0.0);
    contact.record(bits(1.0));
    assert!(contact.is_over());
    assert_eq!(number(contact.peak), 3.0);
    assert_eq!(contact.active, 2);

    let mut endless = Contact::starting();
    while !endless.is_over() {
        endless.compress(bits(1.0));
        endless.record(bits(f32::NAN));
    }
    assert_eq!(endless.active, MAX_CONTACT_SAMPLES);
    assert_eq!(number(endless.peak), 0.0, "a NaN never becomes the peak");
}

#[test]
fn a_tail_never_outlasts_the_longest_contact() {
    assert!(PendingContact::after_burst(striker(()), 100, 100, false).is_none());
    assert!(PendingContact::after_burst(striker(()), 101, 100, true).is_none());
    let mut pending = PendingContact::after_burst(striker(0u32), 101, 100, false);
    let mut samples = 0;
    while pending.is_some() {
        let injected = PendingContact::next_contact_sample(
            &mut pending,
            7u32,
            0u32,
            &|state: u32, incoming: u32, _: Binary32| (state + 1, incoming + state),
            &|_: u32| false,
        );
        assert_eq!(injected, 7 + samples);
        samples += 1;
    }
    assert_eq!(samples as usize, MAX_CONTACT_SAMPLES - 100);
    let silent = PendingContact::next_contact_sample(
        &mut pending,
        7u32,
        0u32,
        &|state: u32, incoming: u32, _: Binary32| (state, incoming),
        &|_: u32| false,
    );
    assert_eq!(silent, 0, "nothing is pending");
    let mut short = PendingContact::after_burst(striker(3u32), 300, 12, false);
    let last = PendingContact::next_contact_sample(
        &mut short,
        1u32,
        0u32,
        &|state: u32, incoming: u32, _: Binary32| (state + incoming, 9),
        &|state: u32| state == 4,
    );
    assert_eq!(last, 9, "the sample at which the hammer leaves still counts");
    assert!(short.is_none());
}

#[test]
fn damped_strings_neither_give_nor_take() {
    let mut group = group_at(220.0, 3);
    group.lift_damper();
    let mut second = group.string(1).expect("the second string exists");
    second.release();
    group.replace_string(1, second);
    group.set_local_coupling_gain(bits(0.5));
    group.set_global_coupling_gain(bits(0.25));
    let plus = |left: f32, right: f32| left + right;
    let minus = |left: f32, right: f32| left - right;
    let mean = |sum: f32, count: usize| sum / count as f32;
    let blend = |own: f32, other: f32, gain: Binary32| own + number(gain) * (other - own);
    let drive = |signal: f32, gain: Binary32| number(gain) * signal;
    let signals = [1.0, 100.0, 3.0];
    let mut feedback = [Feedback { mixed: 0.0, coupling: 9.0 }; 3];
    group.process(&signals, 0.0, &mut feedback, &plus, &minus, &mean, &blend);
    assert_eq!(feedback.map(|string| string.mixed), [2.0, 100.0, 2.0]);
    assert_eq!(feedback.map(|string| string.coupling), [0.0; 3]);

    let mut bus = BridgeBus::with_capacity(4, 0.0f32);
    for (block, coupling) in [(0, 0.0), (1, 0.5), (2, 0.5)] {
        bus.begin_block();
        group.process_with_bridge(
            &signals, 0.0, &mut bus, 2, &mut feedback, &plus, &minus, &mean, &blend, &drive,
        );
        assert_eq!(feedback.map(|string| string.mixed), [2.0, 100.0, 2.0]);
        // The receptive strings gave (1 + 3) / 2, and hear a quarter of it.
        let expected = [coupling, 0.0, coupling];
        assert_eq!(feedback.map(|string| string.coupling), expected, "block {block}");
    }
    group.release();
    bus.begin_block();
    group.process_with_bridge(
        &signals, 0.0, &mut bus, 2, &mut feedback, &plus, &minus, &mean, &blend, &drive,
    );
    assert_eq!(feedback.map(|string| string.mixed), signals);
    assert_eq!(feedback.map(|string| string.coupling), [0.0; 3]);
}

#[test]
fn a_strike_meets_its_own_reflection_and_is_combed() {
    let plan = StrikePlan {
        burst_length: 4,
        reflected_from: 3,
        reflection_delay: 2,
        comb_delay: 2,
    };
    let mut line = DelayLine::with_capacity(8, 0i32);
    let step = |state: i32, incoming: i32, _: Binary32| (state + 1, 10 * state + incoming);
    let difference = |own: i32, earlier: i32| own - earlier;
    let end = plan.write_excitation(&mut line, 0, striker(1), &step, &difference);
    assert_eq!(end.felt, 5);
    let mut noise = Xorshift32::default();
    for _ in 0..4 {
        noise.next_bipolar();
    }
    assert_eq!(end.noise, noise, "one draw for every sample");
    // Written: 10, 20, 30 and 40 plus the first of them; then combed.
    assert_eq!([3, 2, 1, 0].map(|age| line.read(age)), [10, 20, 20, 30]);
    let mut again = DelayLine::with_capacity(8, 0i32);
    plan.write_excitation(&mut again, 0, striker(1), &step, &difference);
    for age in 0..8 {
        assert_eq!(line.read(age), again.read(age), "a strike can be repeated");
    }
}

#[test]
fn a_string_writes_back_what_it_reflects() {
    let mut string = string_at(440.0);
    let mut line = DelayLine::with_capacity(8, bits(0.0));
    let times = |left: Binary32, right: Binary32| bits(number(left) * number(right));
    string.mark_struck(bits(1.0));
    // What is handed to `reflect`, told apart by powers of ten.
    let reflect = |mixed: Binary32, coupling: Binary32, gain: Binary32, pushed: Binary32| {
        bits(1000.0 * number(mixed) + 100.0 * number(coupling) + number(gain) + number(pushed))
    };
    let (mixed, coupling, pushed) = (bits(2.0), bits(3.0), bits(40.0));
    string.write_mixed_feedback(
        &mut line,
        mixed,
        coupling,
        pushed,
        bits(0.25),
        &times,
        &reflect,
    );
    assert_eq!(number(line.read(0)), 2_340.996);
    let zero = bits(0.0);
    string.mark_struck(bits(1.0));
    string.write_mixed_feedback(&mut line, zero, zero, zero, bits(0.25), &times, &reflect);
    assert_eq!(number(line.read(0)), 0.996);
    assert_eq!(number(string.envelope()), 0.999_5);
    string.release();
    let inaudible = |_: Binary32, _: Binary32, _: Binary32, _: Binary32| bits(1e-30);
    string.write_mixed_feedback(&mut line, zero, zero, zero, bits(-2.0), &times, &inaudible);
    assert_eq!(number(line.read(0)), 0.0, "denormal numbers stay out of the loop");
    assert_eq!(number(line.read(1)), 0.996);
    assert_eq!(number(string.envelope()), 2.0);
}

#[test]
fn report_how_resonant_each_soundboard_mode_is() {
    let board = Soundboard::new();
    println!("\n=== SOUNDBOARD MODE Q ===");
    println!("A real piano soundboard mode: Q roughly 20-100 (heavily damped wood).");
    println!("A tubular bell / struck metal bar: Q in the thousands.\n");
    for index in 0..MODE_COUNT {
        let mode = board.mode_at(index).expect("the mode exists");
        let (frequency_hz, decay_seconds) = (number(mode.frequency_hz), number(mode.decay_seconds));
        let q = std::f32::consts::PI * frequency_hz * decay_seconds;
        let bandwidth_hz = frequency_hz / q;
        println!(
            "  mode {index}: f={frequency_hz:7.1} Hz  tau={decay_seconds:.2}s  Q={q:9.0}  -3dB bandwidth={bandwidth_hz:.3} Hz",
        );
    }
}

#[test]
fn the_soundboard_starts_from_its_table() {
    let expected = [
        (80.0, 1.2, 1.0),
        (130.0, 1.0, 0.8),
        (190.0, 0.8, 0.7),
        (280.0, 0.6, 0.6),
        (420.0, 0.5, 0.5),
        (650.0, 0.4, 0.4),
        (950.0, 0.3, 0.3),
        (1_400.0, 0.25, 0.25),
    ];
    let board = Soundboard::new();
    for (index, (frequency, decay, gain)) in expected.into_iter().enumerate() {
        let mode = board.mode_at(index).expect("the mode exists");
        assert_eq!(number(mode.frequency_hz), frequency);
        assert_eq!(number(mode.decay_seconds), decay);
        assert_eq!(number(mode.gain), gain);
        assert_eq!(sanitize_mode(mode), mode);
    }
    assert_eq!(board.mode_at(MODE_COUNT), None);
}

#[test]
fn set_mode_on_an_out_of_range_index_is_a_silent_no_op() {
    let mut board = Soundboard::new();
    board.set_mode(
        MODE_COUNT + 5,
        SoundboardMode {
            frequency_hz: bits(5_000.0),
            decay_seconds: bits(2.0),
            gain: bits(3.0),
        },
    );
    let untouched = Soundboard::new();
    for index in 0..MODE_COUNT {
        assert_eq!(board.mode_at(index), untouched.mode_at(index));
    }
}

#[test]
fn set_mode_clamps_every_field() {
    let mut board = Soundboard::new();
    let wild = SoundboardMode {
        frequency_hz: bits(f32::NAN),
        decay_seconds: bits(f32::INFINITY),
        gain: bits(-1.0),
    };
    board.set_mode(7, wild);
    let mode = board.mode_at(7).expect("the mode exists");
    assert_eq!(number(mode.frequency_hz), 1.0);
    assert_eq!(number(mode.decay_seconds), f32::MAX);
    assert_eq!(number(mode.gain), 0.0);
    let wilder = SoundboardMode {
        frequency_hz: bits(1e6),
        decay_seconds: bits(0.0),
        gain: bits(100.0),
    };
    board.set_mode(0, wilder);
    let mode = board.mode_at(0).expect("the mode exists");
    assert_eq!(number(mode.frequency_hz), 20_000.0);
    assert_eq!(number(mode.decay_seconds), 0.01);
    assert_eq!(number(mode.gain), 4.0);
}

#[test]
fn every_live_setter_of_a_string_retunes_its_loop() {
    // A loop that shows what it was worked out from.
    let told = |string: PluckedString| {
        let stiffness = 100.0 * number(string.inharmonicity);
        bits(number(string.frequency.hertz()) / 10.0 + number(string.damping) + stiffness)
    };
    let mut string = string_at(440.0);
    let inharmonicity = 100.0 * number(string.inharmonicity);
    string.set_damping(bits(0.25), &told);
    assert_eq!(number(string.loop_delay()), 44.0 + 0.25 + inharmonicity);
    string.set_inharmonicity(bits(0.01), &told);
    assert_eq!(number(string.loop_delay()), 44.0 + 0.25 + 100.0 * 0.01);
    string.set_frequency(hz(500.0), &told);
    assert_eq!(number(string.loop_delay()), 50.0 + 0.25 + 100.0 * 0.01);
    string.set_frequency(hz(20_000.0), &told);
    assert_eq!(number(string.loop_delay()), string.max_delay as f32 - 1.0, "no further");
    let before = string;
    string.set_sustain(bits(0.5));
    string.set_seed(3);
    assert_eq!(string.loop_delay(), before.loop_delay());
}
