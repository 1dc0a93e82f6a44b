use piano::binary32::Binary32;
use piano::params::{
    natural_semitone, parse_key, KeyError, NoteError, NoteName, PianoKey, Tuning, CONCERT_A_KEY,
    HIGHEST_PIANO_KEY, LOWEST_PIANO_KEY,
};
use piano::units::ParamError;

fn bits(value: f32) -> Binary32 {
    Binary32::from_bits(value.to_bits())
}

fn number(value: Binary32) -> f32 {
    f32::from_bits(value.to_bits())
}

/// The frequency of `key`, with the power computed here.
fn frequency(key: PianoKey, tuning: Tuning) -> f32 {
    let reference = number(tuning.reference().hertz());
    let semitones = f32::from(key.semitones_from_concert_a());
    let hertz = reference * 2.0f32.powf(semitones / 12.0);
    number(key.frequency(tuning, bits(hertz)).hertz())
}

#[test]
fn concert_a_is_440_hertz() {
    let key = PianoKey::from_midi(CONCERT_A_KEY).expect("A4 is on the keyboard");
    assert!((frequency(key, Tuning::default()) - 440.0).abs() < 1e-3);
}

#[test]
fn an_octave_doubles_the_frequency() {
    let lower = PianoKey::from_midi(57).expect("A3 is on the keyboard");
    let upper = PianoKey::from_midi(69).expect("A4 is on the keyboard");
    let ratio = frequency(upper, Tuning::default()) / frequency(lower, Tuning::default());
    assert!((ratio - 2.0).abs() < 1e-4, "ratio {ratio}");
}

#[test]
fn the_keyboard_has_88_keys() {
    assert_eq!((LOWEST_PIANO_KEY..=HIGHEST_PIANO_KEY).count(), 88);
}

#[test]
fn rejects_keys_outside_the_piano() {
    assert_eq!(PianoKey::from_midi(20), Err(NoteError::OutOfRange(20)));
    assert_eq!(PianoKey::from_midi(109), Err(NoteError::OutOfRange(109)));
}

#[test]
fn parses_note_names() {
    assert_eq!("A4".parse::<PianoKey>().expect("A4 parses").midi_number(), 69);
    assert_eq!("C4".parse::<PianoKey>().expect("C4 parses").midi_number(), 60);
    assert_eq!("A0".parse::<PianoKey>().expect("A0 parses").midi_number(), 21);
    assert_eq!("C8".parse::<PianoKey>().expect("C8 parses").midi_number(), 108);
}

#[test]
fn parses_accidentals() {
    assert_eq!("C#4".parse::<PianoKey>().expect("C#4 parses").midi_number(), 61);
    assert_eq!("Db4".parse::<PianoKey>().expect("Db4 parses").midi_number(), 61);
}

#[test]
fn rejects_nonsense() {
    assert!("".parse::<PianoKey>().is_err());
    assert!("H4".parse::<PianoKey>().is_err());
    assert!("A".parse::<PianoKey>().is_err());
    assert!("A99".parse::<PianoKey>().is_err());
}

#[test]
fn names_round_trip_through_parsing() {
    for midi in LOWEST_PIANO_KEY..=HIGHEST_PIANO_KEY {
        let key = PianoKey::from_midi(midi).expect("key is on the keyboard");
        let text = key.name().text();
        let reparsed: PianoKey = text.parse().expect("a generated name must parse");
        assert_eq!(reparsed, key, "round trip failed for {text}");
    }
}

#[test]
fn alternative_tuning_shifts_every_key() {
    let tuning = Tuning::with_concert_a(bits(442.0)).expect("442 Hz is valid");
    let key = PianoKey::from_midi(CONCERT_A_KEY).expect("A4 is on the keyboard");
    assert!((frequency(key, tuning) - 442.0).abs() < 1e-3);
}

#[test]
fn every_piano_key_is_audible() {
    let tuning = Tuning::default();
    for midi in LOWEST_PIANO_KEY..=HIGHEST_PIANO_KEY {
        let key = PianoKey::from_midi(midi).expect("key is on the keyboard");
        let hertz = frequency(key, tuning);
        assert!((27.0..4_200.0).contains(&hertz), "{midi} -> {hertz} Hz");
    }
}

#[test]
fn accepts_note_names() {
    assert_eq!(parse_key("A4").expect("A4 parses").midi_number(), 69);
    assert_eq!(parse_key(" c#3 ").expect("C#3 parses").midi_number(), 49);
}

#[test]
fn accepts_midi_numbers() {
    assert_eq!(parse_key("69").expect("69 parses").midi_number(), 69);
}

#[test]
fn rejects_keys_off_the_keyboard() {
    assert!(parse_key("200").is_err());
    assert!(parse_key("banana").is_err());
}

#[test]
fn names_are_spelled_with_sharps() {
    let names = ["C", "C#", "D", "D#", "E", "F", "F#", "G", "G#", "A", "A#", "B"];
    for midi in LOWEST_PIANO_KEY..=HIGHEST_PIANO_KEY {
        let name = PianoKey::from_midi(midi).expect("key is on the keyboard").name();
        assert_eq!(name.pitch_class, names[usize::from(midi % 12)]);
        assert_eq!(name.octave, i16::from(midi / 12) - 1);
        assert_eq!(name.text(), format!("{}{}", name.pitch_class, name.octave));
    }
}

#[test]
fn octaves_below_zero_are_written_with_a_sign() {
    assert_eq!(NoteName { pitch_class: "C", octave: -1 }.text(), "C-1");
    assert_eq!(NoteName { pitch_class: "F#", octave: -32768 }.text(), "F#-32768");
    assert_eq!(NoteName { pitch_class: "B", octave: 1203 }.text(), "B1203");
}

#[test]
fn keys_know_their_place() {
    let lowest = PianoKey::from_midi(21).expect("A0 is on the keyboard");
    let highest = PianoKey::from_midi(108).expect("C8 is on the keyboard");
    assert_eq!(lowest.key_index(), 0);
    assert_eq!(highest.key_index(), 87);
    assert_eq!(lowest.semitones_from_concert_a(), -48);
    assert_eq!(highest.semitones_from_concert_a(), 39);
    assert!(lowest < highest);
}

#[test]
fn every_letter_has_its_semitone_in_either_case() {
    let expected = [('C', 0), ('D', 2), ('E', 4), ('F', 5), ('G', 7), ('A', 9), ('B', 11)];
    for (letter, semitone) in expected {
        assert_eq!(natural_semitone(letter), Ok(semitone));
        assert_eq!(natural_semitone(letter.to_ascii_lowercase()), Ok(semitone));
    }
    assert_eq!(natural_semitone('H'), Err(NoteError::Unparsable));
    assert_eq!(natural_semitone('\u{e9}'), Err(NoteError::Unparsable));
}

#[test]
fn note_names_are_read_strictly() {
    // A letter that doubles as an accidental, octaves with a sign, and names
    // just off the keyboard.
    assert_eq!("Bb2".parse::<PianoKey>().map(PianoKey::midi_number), Ok(46));
    assert_eq!("bb2".parse::<PianoKey>().map(PianoKey::midi_number), Ok(46));
    assert_eq!("A+4".parse::<PianoKey>().map(PianoKey::midi_number), Ok(69));
    assert_eq!("A04".parse::<PianoKey>().map(PianoKey::midi_number), Ok(69));
    assert_eq!("\u{2003}A4\n".parse::<PianoKey>().map(PianoKey::midi_number), Ok(69));
    assert_eq!("C0".parse::<PianoKey>(), Err(NoteError::OutOfRange(12)));
    assert_eq!("C#8".parse::<PianoKey>(), Err(NoteError::OutOfRange(109)));
    assert_eq!("C-1".parse::<PianoKey>(), Err(NoteError::OutOfRange(0)));
    assert_eq!("Cb-1".parse::<PianoKey>(), Err(NoteError::Unparsable));
    assert_eq!("A 4".parse::<PianoKey>(), Err(NoteError::Unparsable));
    assert_eq!("A#".parse::<PianoKey>(), Err(NoteError::Unparsable));
    assert_eq!("A##4".parse::<PianoKey>(), Err(NoteError::Unparsable));
    assert_eq!("A-".parse::<PianoKey>(), Err(NoteError::Unparsable));
    assert_eq!("A4x".parse::<PianoKey>(), Err(NoteError::Unparsable));
    assert_eq!("A99999999999999999999".parse::<PianoKey>(), Err(NoteError::Unparsable));
    assert_eq!("A2147483647".parse::<PianoKey>(), Err(NoteError::Unparsable));
    assert_eq!("A-2147483648".parse::<PianoKey>(), Err(NoteError::Unparsable));
}

#[test]
fn an_argument_is_a_number_before_it_is_a_name() {
    assert_eq!(parse_key(" +69 ").map(PianoKey::midi_number), Ok(69));
    let error = parse_key("20").expect_err("20 is below the keyboard");
    assert_eq!(error, KeyError::MidiNote { text: "20".to_owned(), error: NoteError::OutOfRange(20) });
    assert_eq!(error.message(), "invalid MIDI note: 20");
    assert_eq!(error.cause().message(), "MIDI note 20 is outside the piano range 21..=108");
    // Too large for a byte, so not a number at all, and no name either.
    let error = parse_key("300").expect_err("300 is no note");
    assert_eq!(error, KeyError::NoteName { text: "300".to_owned(), error: NoteError::Unparsable });
    assert_eq!(error.message(), "invalid note name: 300");
    assert_eq!(
        error.cause().message(),
        "could not parse a note name; expected something like A4, C#3 or Bb2"
    );
    assert!(parse_key("-1").is_err());
}

#[test]
fn a_tuning_needs_a_frequency() {
    for reference in [0.0, -440.0, f32::INFINITY] {
        assert_eq!(
            Tuning::with_concert_a(bits(reference)),
            Err(ParamError::Frequency(bits(reference)))
        );
    }
    assert!(Tuning::with_concert_a(bits(f32::NAN)).is_err());
}

#[test]
fn a_frequency_that_is_none_falls_back_to_the_reference() {
    let key = PianoKey::from_midi(60).expect("C4 is on the keyboard");
    let tuning = Tuning::default();
    assert_eq!(key.frequency(tuning, bits(f32::NAN)), tuning.reference());
    assert_eq!(key.frequency(tuning, bits(0.0)), tuning.reference());
    assert_eq!(number(key.frequency(tuning, bits(261.6)).hertz()), 261.6);
}

#[test]
fn a_parsed_name_is_the_key_of_its_number() {
    for (name, number) in [("A4", 69), ("A0", 21), ("C8", 108), ("Bb3", 58), ("c#4", 61)] {
        let key = PianoKey::parse(name).expect("the name is on the keyboard");
        assert_eq!(key.midi_number(), number);
        assert_eq!(Ok(key), PianoKey::from_midi(number));
        assert_eq!(parse_key(name).map(|key| key.midi_number()), Ok(number));
    }
}
