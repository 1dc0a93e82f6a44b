use piano::binary32::{Binary32, ONE_BITS};
use piano::math::{clamp_or_low, flush_denormal, DENORMAL_FLOOR_BITS};
use piano::noise::{Xorshift32, DEFAULT_SEED};
use piano::rounding::{complement, seven_bit_fraction};
use piano::units::{Hz, ParamError, SampleRate};

fn bits(value: f32) -> Binary32 {
    Binary32::from_bits(value.to_bits())
}

fn number(value: Binary32) -> f32 {
    f32::from_bits(value.to_bits())
}

const SPECIMENS: [f32; 23] = [
    0.0,
    -0.0,
    1.0,
    -1.0,
    0.5,
    1.5,
    -2.5,
    1e-25,
    9.9e-26,
    1e-30,
    -1e-30,
    1e-45,
    -1e-45,
    1.1754944e-38,
    3.4028235e38,
    -3.4028235e38,
    16_777_215.0,
    16_777_216.0,
    4_294_967_296.0,
    1.8446744e19,
    f32::INFINITY,
    f32::NEG_INFINITY,
    f32::NAN,
];

#[test]
fn comparisons_agree_with_the_processor() {
    for left in SPECIMENS {
        for right in SPECIMENS {
            assert_eq!(bits(left).lt(bits(right)), left < right, "{left} < {right}");
            assert_eq!(bits(left).le(bits(right)), left <= right, "{left} <= {right}");
            let larger = number(bits(left).max(bits(right)));
            let expected = left.max(right);
            assert!(larger == expected || (larger.is_nan() && expected.is_nan()));
        }
        assert_eq!(bits(left).is_nan(), left.is_nan());
        assert_eq!(bits(left).is_finite(), left.is_finite());
        assert_eq!(bits(left).abs().to_bits(), left.abs().to_bits());
    }
}

#[test]
fn whole_parts_agree_with_the_processor() {
    for value in SPECIMENS {
        assert_eq!(bits(value).truncate(), value as usize, "{value}");
    }
    for step in 0..4_000u16 {
        let value = f32::from(step) * 1.37 - 100.0;
        assert_eq!(bits(value).truncate(), value as usize, "{value}");
    }
    for exponent in -10..70 {
        let value = 1.999_999_9f32 * 2.0f32.powi(exponent);
        assert_eq!(bits(value).truncate(), value as usize, "{value}");
    }
}

#[test]
fn halves_agree_with_the_processor() {
    for value in SPECIMENS {
        if value.is_finite() {
            assert_eq!(bits(value).half().to_bits(), (value * 0.5).to_bits(), "{value}");
        }
    }
    for pattern in [0x0080_0001u32, 0x00ff_ffff, 0x0100_0000, 0x0100_0001, 3, 5, 7] {
        let value = f32::from_bits(pattern);
        assert_eq!(bits(value).half().to_bits(), (value * 0.5).to_bits(), "{pattern}");
    }
}

#[test]
fn naturals_are_exact() {
    for value in [0u32, 1, 2, 3, 127, 4_095, 4_194_302, 8_388_607, 8_388_608, 16_777_215] {
        assert_eq!(Binary32::from_natural(value).to_bits(), (value as f32).to_bits());
    }
}

#[test]
fn clamping_keeps_a_nan() {
    let (low, high) = (bits(-1.0), bits(2.0));
    assert!(bits(f32::NAN).clamp(low, high).is_nan());
    assert_eq!(number(bits(-3.0).clamp(low, high)), -1.0);
    assert_eq!(number(bits(3.0).clamp(low, high)), 2.0);
    assert_eq!(number(bits(0.25).clamp(low, high)), 0.25);
}

#[test]
fn flushes_denormals_to_zero() {
    assert_eq!(number(flush_denormal(bits(1e-30))), 0.0);
    assert_eq!(number(flush_denormal(bits(-1e-30))), 0.0);
}

#[test]
fn leaves_audible_values_untouched() {
    assert_eq!(number(flush_denormal(bits(0.5))), 0.5);
    assert_eq!(number(flush_denormal(bits(-0.5))), -0.5);
}

#[test]
fn clamp_maps_nan_to_the_low_bound() {
    assert_eq!(number(clamp_or_low(bits(f32::NAN), bits(0.1), bits(0.9))), 0.1);
}

#[test]
fn clamp_bounds_both_ends() {
    assert_eq!(number(clamp_or_low(bits(-5.0), bits(0.0), bits(1.0))), 0.0);
    assert_eq!(number(clamp_or_low(bits(5.0), bits(0.0), bits(1.0))), 1.0);
    assert_eq!(number(clamp_or_low(bits(0.25), bits(0.0), bits(1.0))), 0.25);
}

#[test]
fn the_denormal_floor_is_where_it_should_be() {
    assert_eq!(DENORMAL_FLOOR_BITS, 1e-25f32.to_bits());
    assert_eq!(ONE_BITS, 1.0f32.to_bits());
    assert_eq!(number(flush_denormal(bits(1e-25))), 1e-25);
    assert_eq!(number(flush_denormal(bits(9.9e-26))), 0.0);
    assert!(flush_denormal(bits(f32::NAN)).is_nan());
    assert_eq!(number(flush_denormal(bits(f32::NEG_INFINITY))), f32::NEG_INFINITY);
}

#[test]
fn is_reproducible_for_a_given_seed() {
    let mut left = Xorshift32::new(7);
    let mut right = Xorshift32::new(7);
    for _ in 0..64 {
        assert_eq!(left.next_u32(), right.next_u32());
    }
}

#[test]
fn zero_seed_does_not_stick() {
    let mut rng = Xorshift32::new(0);
    assert_ne!(rng.next_u32(), 0);
}

#[test]
fn the_generator_draws_the_known_sequence() {
    // Marsaglia's 13, 17, 5 triple from a state of one.
    let mut rng = Xorshift32::new(1);
    assert_eq!(rng.next_u32(), 270_369);
    assert_eq!(rng.next_u32(), 67_634_689);
    let mut replaced = Xorshift32::new(0);
    let mut direct = Xorshift32::new(0x9E37_79B9);
    assert_eq!(replaced.next_u32(), direct.next_u32());
    let mut default = Xorshift32::default();
    let mut seeded = Xorshift32::new(DEFAULT_SEED);
    assert_eq!(default.next_u32(), seeded.next_u32());
}

#[test]
fn data_bytes_divide_as_the_processor_does() {
    for data in 0..=255u8 {
        let expected = f32::from(data) / 127.0;
        let fraction = seven_bit_fraction(data);
        assert_eq!(fraction.to_bits(), expected.to_bits(), "{data} / 127");
        let inverted = complement(fraction);
        assert_eq!(inverted.to_bits(), (1.0 - expected).to_bits(), "1 - {data} / 127");
    }
}

#[test]
fn rejects_non_positive_sample_rate() {
    assert_eq!(SampleRate::new(bits(0.0)), Err(ParamError::SampleRate(bits(0.0))));
    assert_eq!(
        SampleRate::new(bits(-48_000.0)),
        Err(ParamError::SampleRate(bits(-48_000.0)))
    );
}

#[test]
fn rejects_non_finite_sample_rate() {
    assert!(SampleRate::new(bits(f32::NAN)).is_err());
    assert!(SampleRate::new(bits(f32::INFINITY)).is_err());
}

#[test]
fn nyquist_is_half_the_sample_rate() {
    let rate = SampleRate::new(bits(48_000.0)).expect("48 kHz is a valid sample rate");
    assert!((number(rate.nyquist()) - 24_000.0).abs() < f32::EPSILON);
}

#[test]
fn rejects_non_positive_frequency() {
    assert!(Hz::new(bits(0.0)).is_err());
    assert!(Hz::new(bits(-1.0)).is_err());
    assert!(Hz::new(bits(f32::NAN)).is_err());
}

#[test]
fn accepts_audible_frequency() {
    let note = Hz::new(bits(440.0)).expect("440 Hz is a valid frequency");
    assert!((number(note.hertz()) - 440.0).abs() < f32::EPSILON);
}

#[test]
fn a_rejected_frequency_is_reported() {
    assert_eq!(Hz::new(bits(-1.0)), Err(ParamError::Frequency(bits(-1.0))));
    assert_eq!(number(Hz::concert_a().hertz()), 440.0);
    assert_eq!(number(Hz::concert_a().or_keep(bits(f32::INFINITY)).hertz()), 440.0);
    assert_eq!(number(Hz::concert_a().or_keep(bits(27.5)).hertz()), 27.5);
}
