use piano::binary32::Binary32;
use piano::denormals::{flushing_fpcr, flushing_mxcsr};
use piano::limiter::{limit, soft_limit, Limit, OUTPUT_LIMITER_THRESHOLD_BITS};
use piano::params::{PianoKey, HIGHEST_PIANO_KEY, LOWEST_PIANO_KEY};
use piano::render::{
    apply_fade_out, duration_to_samples, fade_span, is_silent_peak, measured_seconds, normalise,
    peak, RenderError, FADE_OUT_SECONDS_BITS, SILENT_PEAK_BITS,
};
use piano::stream::{channel_count, is_supported, mix_into, SampleFormat};
use piano::string::StringConfig;
use piano::units::Hz;
use piano::velocity_curve::{
    warp_velocity, DEFAULT_VELOCITY_CURVE_EXPONENT_BITS, MAX_VELOCITY_CURVE_EXPONENT_BITS,
    MIN_VELOCITY_CURVE_EXPONENT_BITS,
};
use piano::voicing::{
    config_for_key, resolve_anchors, resolved_anchor_midi, solve_loop_losses, sweep,
    unison_count_for_key, voicing_for_key, voicing_for_key_with_registers, DecayTargets, KeyVoicing,
    LoopLosses, Point, RegisterOverrides, SearchBox,
};

fn bits(value: f32) -> Binary32 {
    Binary32::from_bits(value.to_bits())
}

fn number(value: Binary32) -> f32 {
    f32::from_bits(value.to_bits())
}

fn key(midi: u8) -> PianoKey {
    PianoKey::from_midi(midi).expect("the key is on the keyboard")
}

/// Equal temperament around 440 Hz.
fn hertz(midi: u8) -> Binary32 {
    bits(440.0 * 2.0f32.powf((f32::from(midi) - 69.0) / 12.0))
}

/// The straight line between two points.
fn line(position: Binary32, low: Point, high: Point) -> Binary32 {
    let span = number(high.0) - number(low.0);
    if span <= 0.0 {
        return low.1;
    }
    let along = ((number(position) - number(low.0)) / span).clamp(0.0, 1.0);
    if along == 1.0 {
        return high.1;
    }
    bits(number(low.1) + along * (number(high.1) - number(low.1)))
}

/// The voicing of a key whose losses do not depend on its targets.
fn voicing(midi: u8, registers: RegisterOverrides) -> KeyVoicing {
    let solve = |_: Binary32, _: DecayTargets| losses();
    voicing_for_key_with_registers(key(midi), registers, &hertz, &line, &solve)
}

fn plain_voicing(midi: u8) -> KeyVoicing {
    voicing_for_key(key(midi), &hertz, &line, &|_: Binary32, _: DecayTargets| losses())
}

fn losses() -> LoopLosses {
    LoopLosses { pole: bits(0.31), zero_mix: bits(0.22), sustain: bits(0.997) }
}

/// The limiter, with the compression computed here.
fn limited(sample: f32, threshold: f32) -> f32 {
    let saturate = |magnitude: Binary32, threshold: Binary32| {
        let threshold = number(threshold);
        let headroom = 1.0 - threshold;
        bits(threshold + headroom * ((number(magnitude) - threshold) / headroom).tanh())
    };
    number(soft_limit(bits(sample), bits(threshold), &saturate))
}

fn threshold() -> f32 {
    f32::from_bits(OUTPUT_LIMITER_THRESHOLD_BITS)
}

#[test]
fn leaves_a_signal_below_threshold_untouched() {
    assert_eq!(limited(0.5, threshold()), 0.5);
    assert_eq!(limited(-0.5, threshold()), -0.5);
}

#[test]
fn compresses_a_signal_above_threshold_but_keeps_its_sign() {
    let positive = limited(1.05, threshold());
    assert!(positive > threshold() && positive < 1.0);
    let negative = limited(-1.05, threshold());
    assert!((negative + positive).abs() < 1e-6);
}

#[test]
fn never_exceeds_full_scale_no_matter_how_loud_the_input() {
    assert!(limited(1_000.0, threshold()) <= 1.0);
    assert!(limited(f32::MAX, threshold()) <= 1.0);
}

#[test]
fn non_finite_input_maps_to_silence() {
    assert_eq!(limited(f32::NAN, threshold()), 0.0);
    assert_eq!(limited(f32::INFINITY, threshold()), 0.0);
    assert_eq!(limited(f32::NEG_INFINITY, threshold()), 0.0);
}

#[test]
fn soft_limit_is_total_across_pathological_inputs() {
    let samples = [
        0.0,
        -0.0,
        1.0,
        -1.0,
        f32::MIN,
        f32::MAX,
        f32::EPSILON,
        f32::NAN,
        f32::INFINITY,
        f32::NEG_INFINITY,
    ];
    let thresholds = [0.0, 0.9, 1.0, -1.0, 5.0, f32::NAN, f32::INFINITY];
    for &sample in &samples {
        for &threshold in &thresholds {
            let limited = limited(sample, threshold);
            assert!(
                limited.is_finite(),
                "sample {sample} threshold {threshold} gave non-finite {limited}"
            );
            assert!(
                limited.abs() <= 1.0,
                "sample {sample} threshold {threshold} gave {limited} past unit magnitude"
            );
        }
    }
}

#[test]
fn the_threshold_leaves_some_headroom() {
    assert_eq!(threshold(), 0.9);
    assert_eq!(
        limit(bits(-2.0), bits(5.0)),
        Limit::Compress { threshold: bits(0.999), negative: true }
    );
    assert_eq!(
        limit(bits(0.5), bits(f32::NAN)),
        Limit::Compress { threshold: bits(0.0), negative: false }
    );
    assert_eq!(limit(bits(0.9), bits(0.9)), Limit::Pass);
}

/// The velocity curve, with the power computed here.
fn warped(velocity: f32, exponent: f32) -> f32 {
    let power = |base: Binary32, exponent: Binary32| bits(number(base).powf(number(exponent)));
    number(warp_velocity(bits(velocity), bits(exponent), &power))
}

const MIN_EXPONENT: f32 = 0.25;
const MAX_EXPONENT: f32 = 6.0;
const DEFAULT_EXPONENT: f32 = 1.8;

#[test]
fn the_curve_constants_are_what_they_say() {
    assert_eq!(f32::from_bits(MIN_VELOCITY_CURVE_EXPONENT_BITS), MIN_EXPONENT);
    assert_eq!(f32::from_bits(MAX_VELOCITY_CURVE_EXPONENT_BITS), MAX_EXPONENT);
    assert_eq!(f32::from_bits(DEFAULT_VELOCITY_CURVE_EXPONENT_BITS), DEFAULT_EXPONENT);
}

#[test]
fn a_linear_map_is_the_identity() {
    for velocity in [0.0_f32, 0.25, 0.5, 0.75, 1.0] {
        assert_eq!(warped(velocity, 1.0), velocity);
    }
}

#[test]
fn the_endpoints_are_fixed_for_any_exponent() {
    for exponent in [MIN_EXPONENT, 1.0, DEFAULT_EXPONENT, MAX_EXPONENT] {
        assert_eq!(warped(0.0, exponent), 0.0);
        assert_eq!(warped(1.0, exponent), 1.0);
    }
}

#[test]
fn an_exponent_above_one_pulls_every_interior_velocity_down() {
    for velocity in [0.1_f32, 0.25, 0.5, 0.75, 0.9] {
        let warped = self::warped(velocity, DEFAULT_EXPONENT);
        assert!(
            warped < velocity,
            "velocity {velocity} warped to {warped}, expected below the linear map"
        );
    }
}

#[test]
fn warping_stays_monotonically_increasing() {
    let mut previous = warped(0.0, DEFAULT_EXPONENT);
    for tenth in 1..=10 {
        let velocity = tenth as f32 / 10.0;
        let warped = self::warped(velocity, DEFAULT_EXPONENT);
        assert!(
            warped > previous,
            "velocity {velocity} did not warp to more than the previous step"
        );
        previous = warped;
    }
}

#[test]
fn out_of_range_exponents_fall_back_to_a_bound_rather_than_degenerating() {
    assert_eq!(warped(0.5, 0.0), warped(0.5, MIN_EXPONENT));
    assert_eq!(warped(0.5, -3.0), warped(0.5, MIN_EXPONENT));
    assert_eq!(warped(0.5, f32::NAN), warped(0.5, MIN_EXPONENT));
    assert_eq!(warped(0.5, 60.0), warped(0.5, MAX_EXPONENT));
}

#[test]
fn warp_velocity_is_total_across_pathological_inputs() {
    let velocities = [
        0.0,
        -0.0,
        1.0,
        -1.0,
        2.0,
        f32::MIN,
        f32::MAX,
        f32::EPSILON,
        f32::NAN,
        f32::INFINITY,
        f32::NEG_INFINITY,
    ];
    let exponents = [0.0, -1.0, 1.0, 1.8, 6.0, 100.0, f32::NAN, f32::INFINITY];
    for &velocity in &velocities {
        for &exponent in &exponents {
            let warped = self::warped(velocity, exponent);
            assert!(
                warped.is_finite(),
                "velocity {velocity} exponent {exponent} gave non-finite {warped}"
            );
            assert!(
                (0.0..=1.0).contains(&warped),
                "velocity {velocity} exponent {exponent} gave {warped} outside [0, 1]"
            );
        }
    }
}

#[test]
fn bass_keys_are_single_strung_and_treble_keys_are_triple_strung() {
    assert_eq!(unison_count_for_key(key(LOWEST_PIANO_KEY)), 1);
    assert_eq!(unison_count_for_key(key(HIGHEST_PIANO_KEY)), 3);
}

#[test]
fn config_for_key_uses_the_computed_voicing_not_the_global_default() {
    let voicing = plain_voicing(HIGHEST_PIANO_KEY);
    let config = config_for_key(Hz::concert_a(), voicing);
    assert_eq!(config.inharmonicity, voicing.inharmonicity);
    assert_eq!(config.loop_zero_mix, voicing.zero_mix);
    assert_eq!(config.damping, voicing.damping);
    assert_eq!(config.sustain, voicing.sustain);
    assert_eq!(config.seed, StringConfig::new(Hz::concert_a()).seed);
}

#[test]
fn registers_default_matches_voicing_for_key_on_every_key() {
    for midi in LOWEST_PIANO_KEY..=HIGHEST_PIANO_KEY {
        let plain = plain_voicing(midi);
        let with_default_registers = voicing(midi, RegisterOverrides::default());
        assert_eq!(plain, with_default_registers, "MIDI {midi} diverged with no registers set");
    }
}

#[test]
fn overriding_damping_pins_exactly_the_anchor_key_and_no_other() {
    let mut overrides = RegisterOverrides::default();
    overrides.bass.damping = Some(bits(0.123_456));
    let pinned = voicing(LOWEST_PIANO_KEY, overrides);
    assert_eq!(number(pinned.damping), 0.123_456);

    let neighbour_plain = plain_voicing(LOWEST_PIANO_KEY + 1);
    let neighbour_overridden = voicing(LOWEST_PIANO_KEY + 1, overrides);
    assert_eq!(
        neighbour_plain.damping, neighbour_overridden.damping,
        "a bass damping pin leaked into the neighbouring key"
    );
}

#[test]
fn a_key_is_solved_for_the_targets_of_its_register() {
    let mut overrides = RegisterOverrides::default();
    overrides.mid.anchor_midi = Some(60);
    overrides.mid.decay_seconds = Some(bits(7.0));
    for (midi, fundamental, mid_partial, brightness) in
        [(21, 35.0, 18.0, 6.0), (60, 7.0, 5.0, 1.5), (108, 1.5, 0.8, 0.3)]
    {
        let solve = |frequency: Binary32, targets: DecayTargets| {
            assert_eq!(frequency, hertz(midi));
            assert_eq!(number(targets.fundamental), fundamental);
            assert_eq!(number(targets.mid_partial), mid_partial);
            assert_eq!(number(targets.brightness), brightness);
            losses()
        };
        let voicing =
            voicing_for_key_with_registers(key(midi), overrides, &hertz, &line, &solve);
        assert_eq!(voicing.damping, losses().pole);
        assert_eq!(voicing.sustain, losses().sustain);
        assert_eq!(voicing.zero_mix, losses().zero_mix);
    }
}

#[test]
fn partials_between_the_fitted_ones_lie_between_their_targets() {
    let targets = DecayTargets {
        fundamental: bits(10.0),
        mid_partial: bits(6.0),
        brightness: bits(1.0),
    };
    let seconds =
        |partial: f32| number(targets.seconds_for_partial(bits(partial), &line));
    assert_eq!(seconds(1.0), 10.0);
    assert_eq!(seconds(2.0), 8.0);
    assert_eq!(seconds(3.0), 6.0);
    assert_eq!(seconds(5.5), 3.5);
    assert_eq!(seconds(8.0), 1.0);
}

#[test]
fn the_middle_inharmonicity_lies_on_the_line_unless_overridden() {
    let straight = number(plain_voicing(69).inharmonicity);
    let ends = (number(hertz(21)), number(hertz(108)));
    let expected = 0.000_1 + (440.0 - ends.0) / (ends.1 - ends.0) * (0.05 - 0.000_1);
    assert!((straight - expected).abs() < 1e-6, "{straight} against {expected}");
    let mut overrides = RegisterOverrides::default();
    overrides.mid.inharmonicity = Some(bits(0.04));
    assert_eq!(number(voicing(69, overrides).inharmonicity), 0.04);
    assert_eq!(number(voicing(21, overrides).inharmonicity), 0.000_1);
    assert_eq!(number(voicing(108, overrides).inharmonicity), 0.05);
}

#[test]
fn an_invalid_anchor_midi_falls_back_to_the_built_in_position_not_the_reference_pitch() {
    let mut overrides = RegisterOverrides::default();
    overrides.bass.anchor_midi = Some(0);
    assert_eq!(resolve_anchors(overrides), resolve_anchors(RegisterOverrides::default()));
}

#[test]
fn anchors_resolve_every_override() {
    let built_in = resolve_anchors(RegisterOverrides::default());
    assert_eq!((built_in.bass_midi, built_in.mid_midi, built_in.treble_midi), (21, 69, 108));
    assert_eq!(number(built_in.bass_decay), 35.0);
    assert_eq!(number(built_in.mid_decay), 11.0);
    assert_eq!(number(built_in.treble_decay), 1.5);
    assert_eq!(number(built_in.bass_inharmonicity), 0.000_1);
    assert_eq!(built_in.mid_inharmonicity, None);
    assert_eq!(number(built_in.treble_inharmonicity), 0.05);

    let mut overrides = RegisterOverrides::default();
    overrides.mid.anchor_midi = Some(60);
    overrides.mid.decay_seconds = Some(bits(7.0));
    overrides.mid.inharmonicity = Some(bits(9.0));
    overrides.treble.inharmonicity = Some(bits(f32::NAN));
    let resolved = resolve_anchors(overrides);
    assert_eq!(resolved.mid_midi, 60);
    assert_eq!(number(resolved.mid_decay), 7.0);
    assert_eq!(resolved.mid_inharmonicity, Some(bits(0.05)));
    assert_eq!(number(resolved.treble_inharmonicity), 0.0);
    assert_eq!(resolved_anchor_midi(69, Some(109)), 69);
    assert_eq!(resolved_anchor_midi(69, Some(108)), 108);
    assert_eq!(resolved_anchor_midi(69, None), 69);
}

#[test]
fn pins_are_taken_from_the_bass_up_and_clamped() {
    let mut overrides = RegisterOverrides::default();
    overrides.bass.anchor_midi = Some(69);
    overrides.mid.damping = Some(bits(-3.0));
    overrides.treble.damping = Some(bits(0.4));
    assert_eq!(number(voicing(69, overrides).damping), 0.0);
    overrides.bass.damping = Some(bits(7.0));
    assert_eq!(number(voicing(69, overrides).damping), 1.0);
    assert_eq!(number(voicing(108, overrides).damping), 0.4);
}

/// Where step `step` of `points` lies.
fn place(centre: Binary32, half_width: Binary32, step: u32, points: u32) -> Binary32 {
    let position = step as f32 / (points - 1) as f32;
    bits((number(centre) + (2.0 * position - 1.0) * number(half_width)).clamp(0.0, 1.0))
}

#[test]
fn a_sweep_settles_on_the_first_lowest_residual() {
    let plane = SearchBox::whole_plane();
    assert_eq!(number(plane.half_width), 0.5);
    let settled = |residual: &dyn Fn(f32, f32) -> f32| {
        let residual_at = |pole: Binary32, zero: Binary32| {
            bits(residual(number(pole), number(zero)))
        };
        let after = sweep(plane, 5, &place, &residual_at);
        assert_eq!(number(after.half_width), 0.25);
        (number(after.pole_axis), number(after.zero_axis))
    };
    assert_eq!(settled(&|pole, zero| (pole - 0.7).abs() + (zero - 0.2).abs()), (0.75, 0.25));
    assert_eq!(settled(&|_, _| 1.0), (0.0, 0.0), "the first of equals wins");
    assert_eq!(settled(&|_, _| f32::NAN), (0.5, 0.5), "a NaN never wins");
    assert_eq!(settled(&|_, _| f32::INFINITY), (0.5, 0.5));
    assert_eq!(settled(&|pole, _| if pole < 0.6 { f32::NAN } else { pole }), (0.75, 0.0));
}

#[test]
fn the_search_closes_in_on_the_best_point() {
    let losses = solve_loop_losses(
        &place,
        &|pole: Binary32, zero: Binary32| {
            bits((number(pole) - 0.321).powi(2) + (number(zero) - 0.789).powi(2))
        },
        &|pole: Binary32, zero: Binary32| LoopLosses { pole, zero_mix: zero, sustain: bits(1.5) },
    );
    assert!((number(losses.pole) - 0.321).abs() < 1e-3, "{losses:?}");
    assert!((number(losses.zero_mix) - 0.789).abs() < 1e-3, "{losses:?}");
    assert_eq!(number(losses.sustain), 1.0, "kept within range");
}

#[test]
fn renders_the_requested_number_of_samples() {
    assert_eq!(duration_to_samples(bits(0.5), bits(0.5 * 48_000.0)), Ok(24_000));
    assert_eq!(duration_to_samples(bits(600.0), bits(600.0 * 48_000.0)), Ok(28_800_000));
}

#[test]
fn rejects_impossible_durations() {
    assert!(matches!(
        duration_to_samples(bits(0.0), bits(0.0)),
        Err(RenderError::Duration(_))
    ));
    assert!(matches!(
        duration_to_samples(bits(-1.0), bits(-48_000.0)),
        Err(RenderError::Duration(_))
    ));
    assert!(matches!(
        duration_to_samples(bits(f32::NAN), bits(f32::NAN)),
        Err(RenderError::Duration(_))
    ));
    assert!(matches!(
        duration_to_samples(bits(1e9), bits(4.8e13)),
        Err(RenderError::Duration(_))
    ));
    assert_eq!(
        duration_to_samples(bits(f32::INFINITY), bits(1.0)),
        Err(RenderError::Duration(bits(f32::INFINITY)))
    );
}

#[test]
fn a_fade_covers_the_end_of_the_buffer() {
    assert_eq!(fade_span(100, 30), (70, 30));
    assert_eq!(fade_span(4, 1_000), (0, 4));
    assert_eq!(fade_span(0, 10), (0, 0));
    assert_eq!(fade_span(10, 0), (10, 0));
    assert_eq!(f32::from_bits(FADE_OUT_SECONDS_BITS), 0.02);
}

#[test]
fn measurements_are_bounded() {
    for (asked, rendered) in [
        (1.5, 1.5),
        (-1.0, 0.0),
        (500.0, 120.0),
        (f32::NAN, 0.0),
        (f32::INFINITY, 0.0),
    ] {
        assert_eq!(number(measured_seconds(bits(asked))), rendered);
    }
}

#[test]
fn the_peak_is_the_loudest_magnitude() {
    let samples = |values: &[f32]| -> Vec<Binary32> { values.iter().copied().map(bits).collect() };
    assert_eq!(number(peak(&samples(&[0.1, -0.2, 0.05]))), 0.2);
    assert_eq!(number(peak(&samples(&[f32::NAN, 0.1]))), 0.1);
    assert_eq!(number(peak(&samples(&[]))), 0.0);
    assert!(is_silent_peak(peak(&samples(&[0.0; 16]))));
    assert_eq!(f32::from_bits(SILENT_PEAK_BITS), f32::EPSILON);
    assert!(is_silent_peak(bits(f32::EPSILON)));
    assert!(!is_silent_peak(bits(2.0 * f32::EPSILON)));
}

fn times(left: Binary32, right: Binary32) -> Binary32 {
    bits(number(left) * number(right))
}

fn over(left: Binary32, right: Binary32) -> Binary32 {
    bits(number(left) / number(right))
}

#[test]
fn normalise_brings_the_peak_to_target() {
    let mut samples = [0.1, -0.2, 0.05].map(bits);
    normalise(&mut samples, bits(1.0), &over, &times);
    let peak = samples.iter().fold(0.0f32, |worst, sample| worst.max(number(*sample).abs()));
    assert!((peak - 1.0).abs() < 1e-6, "peak {peak}");
}

#[test]
fn normalise_leaves_silence_alone() {
    let mut samples = [bits(0.0); 16];
    normalise(&mut samples, bits(1.0), &over, &times);
    assert!(samples.iter().all(|sample| number(*sample) == 0.0));
}

#[test]
fn fade_out_longer_than_the_buffer_is_clamped() {
    let mut samples = vec![bits(1.0); 4];
    let ramp = |place: usize, length: usize| bits(1.0 - place as f32 * (1.0 / length as f32));
    apply_fade_out(&mut samples, 1_000, &ramp, &times);
    assert!(
        samples.windows(2).all(|pair| number(pair[0]) >= number(pair[1])),
        "ramp is not monotonic"
    );
    assert_eq!(samples.last().map_or(1.0, |last| number(*last)), 0.0);
}

#[test]
fn a_short_fade_leaves_the_rest_alone() {
    let mut samples = vec![bits(1.0); 6];
    let ramp = |place: usize, length: usize| bits((length - place) as f32 / length as f32);
    apply_fade_out(&mut samples, 2, &ramp, &times);
    let faded: Vec<f32> = samples.iter().map(|sample| number(*sample)).collect();
    assert_eq!(faded, vec![1.0, 1.0, 1.0, 1.0, 0.5, 0.0]);
}

#[test]
fn every_channel_of_a_frame_gets_its_sample() {
    let mut chunk = [0i16; 7];
    mix_into(&mut chunk, 2, &[10, 20, 30]);
    assert_eq!(chunk, [10, 10, 20, 20, 30, 30, 0]);
    let mut mono = [0u16; 4];
    mix_into(&mut mono, 1, &[1, 2, 3, 4, 5]);
    assert_eq!(mono, [1, 2, 3, 4]);
    assert_eq!(channel_count(0), 1);
    assert_eq!(channel_count(6), 6);
    assert!(is_supported(SampleFormat::F32));
    assert!(is_supported(SampleFormat::I16));
    assert!(is_supported(SampleFormat::U16));
    assert!(!is_supported(SampleFormat::Other));
}

#[test]
fn denormals_are_flushed_by_the_architected_bits() {
    assert_eq!(flushing_mxcsr(0x1f80), 0x1f80 | (1 << 15) | (1 << 6));
    assert_eq!(flushing_mxcsr(u32::MAX), u32::MAX);
    assert_eq!(flushing_fpcr(0), 1 << 24);
    assert_eq!(flushing_fpcr(0x9), 0x9 | (1 << 24));
}

#[test]
fn the_limiter_treats_both_signs_alike() {
    let threshold = Binary32::from_bits(OUTPUT_LIMITER_THRESHOLD_BITS);
    for sample in [0.1f32, 0.9, 0.900_001, 1.0, 55.0, f32::MAX, f32::INFINITY] {
        let up = limited(sample, number(threshold));
        let down = limited(-sample, number(threshold));
        assert_eq!(up, -down, "{sample}");
        assert!(up <= 1.0);
    }
    assert_eq!(
        limit(bits(-2.0), threshold),
        Limit::Compress { threshold, negative: true }
    );
}

#[test]
fn a_faded_buffer_ends_in_exact_silence() {
    // A ramp that rounds does not reach zero by itself.
    let ramp = |place: usize, length: usize| bits(1.0 - place as f32 * (1.0 / length as f32));
    assert_ne!(number(ramp(41, 41)), 0.0);
    let mut samples = [bits(1.0); 41];
    apply_fade_out(&mut samples, 41, &ramp, &times);
    assert_eq!(number(samples[40]), 0.0);
    assert!(number(samples[39]) > 0.0);
    let mut single = [bits(1.0)];
    apply_fade_out(&mut single, 1, &ramp, &times);
    assert_eq!(number(single[0]), 0.0);
    apply_fade_out(&mut [], 1, &ramp, &times);
}

#[test]
fn the_limiter_holds_whatever_its_compression_gives() {
    for wild in [f32::NAN, f32::INFINITY, -3.0, 7.5, f32::MAX] {
        let compress = |_: Binary32, _: Binary32| bits(wild);
        for sample in [2.0, -2.0, f32::MAX, f32::MIN] {
            let limited = number(soft_limit(bits(sample), bits(0.9), &compress));
            assert!(limited.abs() <= 1.0, "{sample} through {wild} gave {limited}");
        }
    }
    let compress = |_: Binary32, _: Binary32| bits(7.5);
    assert_eq!(number(soft_limit(bits(-2.0), bits(0.9), &compress)), -1.0);
}

#[test]
fn a_bass_damping_pin_reaches_one_key_only() {
    let plain = RegisterOverrides::default();
    let mut pinned = plain;
    pinned.bass.damping = Some(bits(0.123_456));
    for midi in 21..=108 {
        let (before, after) = (voicing(midi, plain), voicing(midi, pinned));
        assert_eq!(after.sustain, before.sustain);
        assert_eq!(after.inharmonicity, before.inharmonicity);
        assert_eq!(after.zero_mix, before.zero_mix);
        if midi == 21 {
            assert_eq!(number(after.damping), 0.123_456);
        } else {
            assert_eq!(after.damping, before.damping);
        }
    }
}
