use piano::binary32::Binary32;
use piano::commands::Command;
use piano::engine::{Action, Engine};
use piano::hammer::HammerConfig;
use piano::params::{HIGHEST_PIANO_KEY, KEY_COUNT, LOWEST_PIANO_KEY};
use piano::session::AudioSession;
use piano::soundboard::SoundboardMode;
use piano::string::{LoopTuning, PluckedString, StringConfig};
use piano::unison::{unison_count_for_key_index, StringTuning, UnisonGroup};
use piano::units::{Hz, SampleRate};

fn bits(value: f32) -> Binary32 {
    Binary32::from_bits(value.to_bits())
}

fn number(value: Binary32) -> f32 {
    f32::from_bits(value.to_bits())
}

fn rate(hertz: f32) -> SampleRate {
    SampleRate::new(bits(hertz)).expect("the rate is valid")
}

/// One group per key, in equal temperament around 440 Hz.
fn groups(hertz: f32) -> Vec<Option<UnisonGroup>> {
    (0..KEY_COUNT)
        .map(|key| {
            let frequency = 440.0 * 2.0f32.powf((key as f32 - 48.0) / 12.0);
            let period = hertz / frequency;
            let tuning = StringTuning {
                detuned: bits(frequency),
                tuning: LoopTuning {
                    loop_delay: bits(period - 2.5),
                    maximum: bits(hertz / 3.0),
                    capacity: (period * 1.6) as usize + 4,
                    sections: 0,
                },
            };
            let config = StringConfig::new(Hz::new(bits(frequency)).expect("an audible key"));
            let count = unison_count_for_key_index(key as u8);
            UnisonGroup::new(config, count, rate(hertz), &vec![tuning; 3]).ok()
        })
        .collect()
}

fn engine() -> Engine {
    Engine::new(groups(48_000.0))
}

/// Sends commands through a ring and carries them out, as a callback would.
fn play(engine: &mut Engine, commands: &[Command]) -> Vec<Action> {
    let (mut session, mut consumer) = AudioSession::open(rate(48_000.0));
    for command in commands {
        assert!(session.send(*command), "queue has room");
    }
    drain(engine, &mut consumer)
}

/// Leaves every velocity as it is, whatever the exponent of the curve.
fn straight(base: Binary32, _: Binary32) -> Binary32 {
    base
}

/// Moves a frequency by some cents.
fn moved(hertz: Binary32, cents: Binary32) -> Binary32 {
    bits(number(hertz) * 2.0f32.powf(number(cents) / 1200.0))
}

/// The loop of a string whose filters add two samples and a half.
fn retuned(string: PluckedString) -> Binary32 {
    bits(48_000.0 / number(string.frequency.hertz()) - 2.5)
}

fn drain(engine: &mut Engine, consumer: &mut rtrb::Consumer<Command>) -> Vec<Action> {
    let mut actions = Vec::new();
    while let Ok(command) = consumer.pop() {
        actions.push(engine.apply(command, &straight, &moved, &retuned));
    }
    actions
}

fn key_of(midi: u8) -> usize {
    usize::from(midi - LOWEST_PIANO_KEY)
}

fn group(engine: &Engine, midi: u8) -> UnisonGroup {
    engine.group(key_of(midi)).expect("the key is tunable")
}

fn all_inert(engine: &Engine) -> bool {
    (0..KEY_COUNT).all(|key| engine.is_inert(key))
}

fn strike(midi: u8) -> Command {
    Command::NoteOn { midi, velocity: bits(1.0) }
}

#[test]
fn a_note_on_command_strikes_its_key() {
    let mut engine = engine();
    let actions = play(&mut engine, &[strike(69)]);
    assert_eq!(actions, vec![Action::Strike { key: 48, velocity: bits(1.0) }]);
    assert!(!engine.is_inert(48));
    assert!((0..KEY_COUNT).all(|key| key == 48 || engine.is_inert(key)));
    assert_eq!(number(group(&engine, 69).envelope()), 1.0);
}

#[test]
fn an_unknown_note_asks_for_nothing() {
    let mut engine = engine();
    assert_eq!(play(&mut engine, &[strike(200)]), vec![Action::Nothing]);
    assert!(all_inert(&engine));
}

#[test]
fn silencing_asks_for_every_string_to_be_cleared() {
    let mut engine = engine();
    play(&mut engine, &[strike(69)]);
    assert_eq!(play(&mut engine, &[Command::AllNotesOff]), vec![Action::Silence]);
    assert!(all_inert(&engine));
}

#[test]
fn silence_leaves_nothing_receptive_even_under_the_pedal() {
    let mut engine = engine();
    play(&mut engine, &[Command::SustainPedal { down: true }, strike(60), strike(64)]);
    assert!((0..KEY_COUNT).all(|key| !engine.is_inert(key)));
    play(&mut engine, &[Command::AllNotesOff]);
    assert!(all_inert(&engine));
    assert!(engine.is_pedal_down());
}

#[test]
fn every_key_can_be_struck_at_once() {
    let mut engine = engine();
    for midi in LOWEST_PIANO_KEY..=HIGHEST_PIANO_KEY {
        let actions = play(&mut engine, &[strike(midi)]);
        assert_eq!(actions, vec![Action::Strike { key: key_of(midi), velocity: bits(1.0) }]);
    }
    assert!((0..KEY_COUNT).all(|key| !engine.is_inert(key)));
}

#[test]
fn a_re_struck_key_has_the_level_of_its_last_strike() {
    let mut engine = engine();
    for velocity in [0.1, 0.9, 0.5] {
        play(&mut engine, &[Command::NoteOn { midi: 60, velocity: bits(velocity) }]);
        assert_eq!(number(group(&engine, 60).envelope()), velocity);
    }
}

#[test]
fn a_damping_reaches_every_string_of_the_engine() {
    let mut engine = engine();
    play(&mut engine, &[strike(69)]);
    let actions = play(&mut engine, &[Command::SetDamping { damping: bits(0.95) }]);
    assert_eq!(actions, vec![Action::RetuneAll]);
    for midi in LOWEST_PIANO_KEY..=HIGHEST_PIANO_KEY {
        let strings = group(&engine, midi);
        for index in 0..strings.len() {
            let string = strings.string(index).expect("the string exists");
            assert_eq!(number(string.damping), 0.95);
        }
    }
    assert_eq!(number(group(&engine, 69).envelope()), 1.0, "it rings on");
}

#[test]
fn a_sustain_reaches_a_silent_engine() {
    let mut engine = engine();
    play(&mut engine, &[Command::SetSustain { sustain: bits(0.9) }]);
    assert_eq!(number(group(&engine, 21).first.sustain), 0.9);
    assert!(all_inert(&engine));
}

#[test]
fn a_damping_is_kept_in_range() {
    let mut engine = engine();
    for (asked, kept) in [(5.0, 1.0), (-5.0, 0.0), (f32::NAN, 0.0)] {
        play(&mut engine, &[Command::SetDamping { damping: bits(asked) }]);
        assert_eq!(number(group(&engine, 60).first.damping), kept);
    }
}

#[test]
fn a_mode_that_is_not_there_is_not_rebuilt() {
    let mut engine = engine();
    let mode = SoundboardMode {
        frequency_hz: bits(100.0),
        decay_seconds: bits(1.0),
        gain: bits(1.0),
    };
    let before: Vec<_> = (0..8).map(|index| engine.soundboard_mode(index)).collect();
    let ignored = play(&mut engine, &[Command::SetSoundboardMode { index: 999, mode }]);
    assert_eq!(ignored, vec![Action::Nothing]);
    let after: Vec<_> = (0..8).map(|index| engine.soundboard_mode(index)).collect();
    assert_eq!(before, after);
    let rebuilt = play(&mut engine, &[Command::SetSoundboardMode { index: 5, mode }]);
    assert_eq!(rebuilt, vec![Action::RebuildMode { index: 5 }]);
    assert_eq!(engine.soundboard_mode(5), Some(mode));
    assert_eq!(engine.soundboard_mode(8), None);
}

#[test]
fn gains_are_clamped_to_what_they_may_be() {
    let mut engine = engine();
    assert_eq!(number(engine.soundboard_mix_gain()), 0.5);
    assert_eq!(number(engine.master_gain()), 1.0);
    assert_eq!(number(engine.velocity_exponent()), 1.8);
    for (asked, mix, master, exponent) in [
        (1.0, 1.0, 1.0, 1.0),
        (100.0, 2.0, 4.0, 6.0),
        (-1.0, 0.0, 0.0, 0.25),
        (f32::NAN, 0.0, 0.0, 0.25),
    ] {
        play(
            &mut engine,
            &[
                Command::SetSoundboardMixGain { gain: bits(asked) },
                Command::SetMasterGain { gain: bits(asked) },
                Command::SetVelocityCurve { exponent: bits(asked) },
            ],
        );
        assert_eq!(number(engine.soundboard_mix_gain()), mix);
        assert_eq!(number(engine.master_gain()), master);
        assert_eq!(number(engine.velocity_exponent()), exponent);
    }
}

#[test]
fn a_local_coupling_gain_reaches_every_key() {
    let mut engine = engine();
    play(&mut engine, &[strike(69), Command::SetLocalCouplingGain { gain: bits(0.0) }]);
    assert_eq!(number(group(&engine, 69).local_coupling_gain), 0.0);
    assert_eq!(number(group(&engine, 21).local_coupling_gain), 0.0);
}

#[test]
fn the_damping_of_one_string_is_kept_by_that_string() {
    let mut engine = engine();
    play(&mut engine, &[strike(69)]);
    let command = Command::SetStringDamping { midi: 69, string_index: 0, damping: bits(0.95) };
    assert_eq!(play(&mut engine, &[command]), vec![Action::Retune { key: 48, string: 0 }]);
    assert_eq!(number(group(&engine, 69).first.damping), 0.95);
    assert_eq!(number(group(&engine, 70).first.damping), 0.5);
}

#[test]
fn the_sustain_of_one_string_is_kept_by_that_string() {
    let mut engine = engine();
    let command = Command::SetStringSustain { midi: 69, string_index: 1, sustain: bits(0.5) };
    assert_eq!(play(&mut engine, &[strike(69), command])[1], Action::Nothing);
    let strings = group(&engine, 69);
    assert_eq!(number(strings.string(1).expect("the string exists").sustain), 0.5);
    assert_eq!(number(strings.first.sustain), 0.996);
}

#[test]
fn the_inharmonicity_of_one_string_is_kept_by_that_string() {
    let mut engine = engine();
    let command =
        Command::SetStringInharmonicity { midi: 69, string_index: 2, inharmonicity: bits(0.02) };
    let actions = play(&mut engine, &[strike(69), command]);
    assert_eq!(actions[1], Action::Retune { key: 48, string: 2 });
    let string = group(&engine, 69).string(2).expect("the string exists");
    assert_eq!(number(string.inharmonicity), 0.02);
}

#[test]
fn a_detuned_string_moves_around_its_keys_own_frequency() {
    let mut engine = engine();
    let command = Command::SetStringDetune { midi: 69, string_index: 0, cents: bits(40.0) };
    let actions = play(&mut engine, &[strike(69), command]);
    assert_eq!(actions[1], Action::Nothing, "no filter moves");
    let frequency = 440.0 * 2.0f32.powf(40.0 / 1200.0);
    let string = group(&engine, 69).first;
    assert_eq!(number(string.frequency.hertz()), frequency);
    assert_eq!(number(string.loop_delay()), 48_000.0 / frequency - 2.5);
    let wild = Command::SetStringDetune { midi: 69, string_index: 0, cents: bits(f32::NAN) };
    play(&mut engine, &[wild]);
    let string = group(&engine, 69).first;
    assert_eq!(number(string.frequency.hertz()), 440.0);
    assert_eq!(number(string.loop_delay()), 48_000.0 / 440.0 - 2.5);
}

#[test]
fn a_seed_is_kept_by_its_string() {
    let mut engine = engine();
    play(&mut engine, &[Command::SetStringSeed { midi: 69, string_index: 0, seed: 0xDEAD_BEEF }]);
    assert_eq!(group(&engine, 69).first.seed, 0xDEAD_BEEF);
}

#[test]
fn a_hammer_is_kept_by_its_string() {
    let mut engine = engine();
    let hammer = HammerConfig { stiffness: bits(1e10), ..HammerConfig::default() };
    play(&mut engine, &[Command::SetStringHammer { midi: 69, string_index: 0, hammer }]);
    assert_eq!(group(&engine, 69).first.hammer, hammer);
}

#[test]
fn commands_about_strings_that_are_not_there_ask_for_nothing() {
    let mut engine = engine();
    let actions = play(
        &mut engine,
        &[
            Command::SetStringDamping { midi: 255, string_index: 0, damping: bits(0.5) },
            Command::SetStringDetune { midi: 69, string_index: 250, cents: bits(10.0) },
        ],
    );
    assert_eq!(actions, vec![Action::Nothing, Action::Nothing]);
}

#[test]
fn coupling_gains_are_kept_in_range() {
    let mut engine = engine();
    play(
        &mut engine,
        &[
            Command::SetGlobalCouplingGain { gain: bits(f32::NAN) },
            Command::SetLocalCouplingGain { gain: bits(50.0) },
        ],
    );
    assert_eq!(number(group(&engine, 60).global_coupling_gain), 0.0);
    assert_eq!(number(group(&engine, 60).local_coupling_gain), 1.0);
}

#[test]
fn note_off_damps_a_ringing_voice() {
    let mut engine = engine();
    play(&mut engine, &[strike(69), Command::NoteOff { midi: 69 }]);
    assert!(!group(&engine, 69).is_receptive());
    assert!(!engine.is_inert(48), "it still has to ring out");
}

#[test]
fn the_pedal_keeps_a_released_key_open() {
    let mut engine = engine();
    play(
        &mut engine,
        &[
            Command::SustainPedal { down: true },
            strike(69),
            Command::NoteOff { midi: 69 },
        ],
    );
    assert!(
        group(&engine, 69).is_receptive(),
        "a pedal-held note-off should not have released the voice yet"
    );
    play(&mut engine, &[Command::SustainPedal { down: false }]);
    assert!(
        !group(&engine, 69).is_receptive(),
        "releasing the pedal should have released the held voice"
    );
}

#[test]
fn a_re_strike_under_the_pedal_keeps_the_key_open() {
    let mut engine = engine();
    play(
        &mut engine,
        &[
            Command::SustainPedal { down: true },
            strike(69),
            Command::NoteOff { midi: 69 },
            strike(69),
        ],
    );
    play(&mut engine, &[Command::SustainPedal { down: false }]);
    assert!(
        group(&engine, 69).is_receptive(),
        "re-striking should have cancelled the pending pedal release"
    );
    play(&mut engine, &[Command::NoteOff { midi: 69 }]);
    assert!(!group(&engine, 69).is_receptive());
}

#[test]
fn the_pedal_lifts_every_damper_and_lets_it_down_again() {
    let mut engine = engine();
    play(&mut engine, &[strike(60)]);
    let before: Vec<_> = (0..KEY_COUNT).map(|key| engine.group(key)).collect();
    engine.set_sustain_pedal(true);
    assert!(engine.is_pedal_down());
    assert!((0..KEY_COUNT).all(|key| !engine.is_inert(key)), "silent but receptive");
    engine.set_sustain_pedal(true);
    engine.set_sustain_pedal(false);
    let after: Vec<_> = (0..KEY_COUNT).map(|key| engine.group(key)).collect();
    assert_eq!(before, after);
}

#[test]
fn direct_calls_do_what_commands_do() {
    let mut direct = engine();
    let mut sent = engine();
    play(&mut direct, &[Command::NoteOn { midi: 64, velocity: bits(0.5) }]);
    direct.set_sustain_pedal(true);
    direct.note_off(64);
    direct.note_off(200);
    play(
        &mut sent,
        &[
            Command::NoteOn { midi: 64, velocity: bits(0.5) },
            Command::SustainPedal { down: true },
            Command::NoteOff { midi: 64 },
        ],
    );
    for key in 0..KEY_COUNT {
        assert_eq!(direct.group(key), sent.group(key));
    }
    assert_eq!(direct.is_pedal_down(), sent.is_pedal_down());
}

#[test]
fn releasing_an_unknown_note_asks_for_nothing() {
    let mut engine = engine();
    assert_eq!(play(&mut engine, &[Command::NoteOff { midi: 200 }]), vec![Action::Nothing]);
    assert!(all_inert(&engine));
}

#[test]
fn a_key_that_cannot_be_tuned_asks_for_nothing() {
    let mut engine = Engine::new(groups(8_000.0));
    assert_eq!(engine.group(KEY_COUNT - 1), None, "C8 does not fit 8 kHz");
    assert_eq!(play(&mut engine, &[strike(HIGHEST_PIANO_KEY)]), vec![Action::Nothing]);
    assert!(engine.is_inert(KEY_COUNT - 1));
    assert_eq!(engine.group(KEY_COUNT), None);
}

#[test]
fn strikes_go_through_the_velocity_curve() {
    let mut engine = engine();
    let power = |base: Binary32, exponent: Binary32| bits(number(base).powf(number(exponent)));
    let warped = 0.5f32.powf(1.8);
    let strike = Command::NoteOn { midi: 69, velocity: bits(0.5) };
    assert_eq!(
        engine.apply(strike, &power, &moved, &retuned),
        Action::Strike { key: 48, velocity: bits(warped) }
    );
    assert_eq!(number(group(&engine, 69).envelope()), warped);
    let curve = Command::SetVelocityCurve { exponent: bits(1.0) };
    engine.apply(curve, &power, &moved, &retuned);
    assert_eq!(
        engine.apply(strike, &power, &moved, &retuned),
        Action::Strike { key: 48, velocity: bits(0.5) }
    );
}

#[test]
fn levels_come_back_from_the_renderer() {
    let mut engine = engine();
    play(&mut engine, &[strike(60), Command::NoteOff { midi: 60 }]);
    let key = key_of(60);
    let mut strings = group(&engine, 60);
    for index in 0..strings.len() {
        let mut string = strings.string(index).expect("the string exists");
        string.track_envelope(bits(0.0), bits(1e-5));
        strings.replace_string(index, string);
    }
    assert!(!engine.is_inert(key));
    engine.put_group(key, strings);
    assert!(engine.is_inert(key), "released and rung out");
}
