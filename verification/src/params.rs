//! Musical naming and tuning: the layer that turns "A4" into a key.
//!
//! The string model does not care about note names, and an instrument driven by
//! a controller, by a score or by a slider should not have to drag a note parser
//! onto the audio thread.
use crate::binary32::Binary32;
use crate::text;
use crate::units::{Hz, ParamError};
use vstd::prelude::*;

verus! {

/// MIDI note number of the lowest key on an 88-key piano (A0).
pub const LOWEST_PIANO_KEY: u8 = 21;

/// MIDI note number of the highest key on an 88-key piano (C8).
pub const HIGHEST_PIANO_KEY: u8 = 108;

/// MIDI note number of concert A.
pub const CONCERT_A_KEY: u8 = 69;

/// How many keys the piano has.
pub const KEY_COUNT: usize = 88;

/// `number` names a key of the piano.
pub open spec fn on_keyboard(number: int) -> bool {
    LOWEST_PIANO_KEY <= number <= HIGHEST_PIANO_KEY
}

/// Why a note could not be built or parsed.
#[derive(Debug, Clone, Copy, PartialEq, Eq, Structural)]
pub enum NoteError {
    /// The MIDI number is outside the 88-key piano range.
    OutOfRange(u8),
    /// The text is not a note name such as `A4`, `C#3` or `Bb2`.
    Unparsable,
}

impl NoteError {
    /// The words [`NoteError::message`] puts the error in.
    pub open spec fn words(self) -> Seq<char> {
        match self {
            NoteError::OutOfRange(number) => "MIDI note "@ + text::decimal(number as nat)
                + " is outside the piano range 21..=108"@,
            NoteError::Unparsable =>
                "could not parse a note name; expected something like A4, C#3 or Bb2"@,
        }
    }

    /// The error in words.
    pub fn message(&self) -> (message: String)
        ensures
            message@ == self.words(),
    {
        match self {
            NoteError::OutOfRange(number) => {
                let mut message = String::from_str("MIDI note ");
                text::append_decimal(&mut message, *number as u32);
                message.append(" is outside the piano range 21..=108");
                message
            },
            NoteError::Unparsable => String::from_str(
                "could not parse a note name; expected something like A4, C#3 or Bb2",
            ),
        }
    }
}

/// A key on the piano, identified by its MIDI note number.
#[derive(Debug, Clone, Copy, PartialEq, Eq, PartialOrd, Ord, Structural)]
pub struct PianoKey {
    number: u8,
}

/// What `number` is as a key: the key itself, or why there is none.
pub open spec fn key_numbered(number: u8) -> Result<PianoKey, NoteError> {
    if on_keyboard(number as int) {
        Ok(PianoKey::numbered(number))
    } else {
        Err(NoteError::OutOfRange(number))
    }
}

impl PianoKey {
    #[verifier::type_invariant]
    spec fn valid(self) -> bool {
        on_keyboard(self.number as int)
    }

    /// The key with this MIDI note number.
    pub closed spec fn numbered(number: u8) -> Self {
        PianoKey { number }
    }

    /// The key's MIDI note number.
    pub closed spec fn number(self) -> u8 {
        self.number
    }

    /// Wraps a MIDI note number, which has to be on the keyboard.
    pub fn from_midi(number: u8) -> (result: Result<Self, NoteError>)
        ensures
            result == key_numbered(number),
            result matches Ok(key) ==> key.number() == number,
    {
        if number < LOWEST_PIANO_KEY || number > HIGHEST_PIANO_KEY {
            return Err(NoteError::OutOfRange(number));
        }
        Ok(PianoKey { number })
    }

    /// The MIDI note number.
    pub fn midi_number(self) -> (number: u8)
        ensures
            number == self.number(),
            on_keyboard(number as int),
    {
        proof {
            use_type_invariant(&self);
        }
        self.number
    }

    /// Position on the keyboard, zero for the lowest key.
    pub fn key_index(self) -> (index: u8)
        ensures
            index == self.number() - LOWEST_PIANO_KEY,
            index < KEY_COUNT,
    {
        proof {
            use_type_invariant(&self);
        }
        self.number - LOWEST_PIANO_KEY
    }

    /// How many semitones the key lies above concert A, negative below it.
    pub fn semitones_from_concert_a(self) -> (semitones: i16)
        ensures
            semitones == self.number() - CONCERT_A_KEY,
    {
        self.number as i16 - CONCERT_A_KEY as i16
    }

    /// The frequency of this key under `tuning`, given the number of hertz that
    /// its distance from concert A comes to. A number that is no frequency
    /// leaves the reference pitch.
    pub fn frequency(self, tuning: Tuning, hertz: Binary32) -> (frequency: Hz)
        ensures
            frequency == tuning.pitch().kept(hertz),
            frequency.value() == if crate::units::usable(hertz) {
                hertz
            } else {
                tuning.pitch().value()
            },
    {
        tuning.reference.or_keep(hertz)
    }

    /// The note name, such as `A#3`. Sharps only; no enharmonic spelling.
    pub fn name(self) -> (name: NoteName)
        ensures
            name.pitch_class@ == pitch_class(self.number() as int % 12),
            name.octave == self.number() as int / 12 - 1,
    {
        proof {
            use_type_invariant(&self);
        }
        let semitone: u8 = self.number % 12;
        let pitch_class = if semitone == 0 {
            "C"
        } else if semitone == 1 {
            "C#"
        } else if semitone == 2 {
            "D"
        } else if semitone == 3 {
            "D#"
        } else if semitone == 4 {
            "E"
        } else if semitone == 5 {
            "F"
        } else if semitone == 6 {
            "F#"
        } else if semitone == 7 {
            "G"
        } else if semitone == 8 {
            "G#"
        } else if semitone == 9 {
            "A"
        } else if semitone == 10 {
            "A#"
        } else {
            "B"
        };
        NoteName { pitch_class, octave: (self.number / 12) as i16 - 1 }
    }

    /// Parses a note name: a letter, an optional `#` or `b`, and an octave, with
    /// any white space around it.
    pub fn parse(text: &str) -> (result: Result<Self, NoteError>)
        ensures
            result == named_key(text@),
            result matches Ok(key) ==> note_number(text@) == Some(key.number() as int),
    {
        let chars = text::characters(text);
        let (start, end) = text::trim(&chars);
        let ghost name = text::trimmed(chars@);
        assert(name == chars@.subrange(start as int, end as int));
        if start == end {
            return Err(NoteError::Unparsable);
        }
        let semitone: i32 = match natural_semitone(chars[start]) {
            Ok(semitone) => semitone as i32,
            Err(error) => {
                return Err(error);
            },
        };
        assert(name[0] == chars@[start as int]);
        let mut at: usize = start + 1;
        let mut shift: i32 = 0;
        if at < end {
            assert(name[1] == chars@[at as int]);
            if chars[at] == '#' {
                shift = 1;
                at = at + 1;
            } else if chars[at] == 'b' {
                shift = -1;
                at = at + 1;
            }
        }
        assert(name.skip(at - start) =~= chars@.subrange(at as int, end as int));
        let octave: i32 = match text::parse_i32(&chars, at, end) {
            Some(octave) => octave,
            None => {
                return Err(NoteError::Unparsable);
            },
        };
        let midi: i64 = (octave as i64 + 1) * 12 + semitone as i64 + shift as i64;
        if midi < 0 || midi > 255 {
            return Err(NoteError::Unparsable);
        }
        PianoKey::from_midi(midi as u8)
    }
}

impl std::str::FromStr for PianoKey {
    type Err = NoteError;

    /// Parses `A4`, `C#3`, `Bb2` and the like.
    fn from_str(text: &str) -> (result: Result<Self, NoteError>)
        ensures
            result == named_key(text@),
            result matches Ok(key) ==> note_number(text@) == Some(key.number() as int),
    {
        PianoKey::parse(text)
    }
}

/// A rendered note name: pitch class plus octave.
#[derive(Debug, Clone, Copy, PartialEq, Eq)]
pub struct NoteName {
    /// The pitch class, such as `"C"` or `"F#"`.
    pub pitch_class: &'static str,
    /// The scientific-pitch octave, where middle C is `C4`.
    pub octave: i16,
}

impl NoteName {
    /// The characters [`NoteName::text`] writes.
    pub open spec fn letters(self) -> Seq<char> {
        self.pitch_class@ + text::signed_decimal(self.octave as int)
    }

    /// The name as text.
    pub fn text(&self) -> (name: String)
        ensures
            name@ == self.letters(),
    {
        let mut name = String::from_str(self.pitch_class);
        text::append_signed(&mut name, self.octave);
        name
    }
}

/// The name of the semitone `semitone` above C.
pub open spec fn pitch_class(semitone: int) -> Seq<char> {
    if semitone == 0 {
        "C"@
    } else if semitone == 1 {
        "C#"@
    } else if semitone == 2 {
        "D"@
    } else if semitone == 3 {
        "D#"@
    } else if semitone == 4 {
        "E"@
    } else if semitone == 5 {
        "F"@
    } else if semitone == 6 {
        "F#"@
    } else if semitone == 7 {
        "G"@
    } else if semitone == 8 {
        "G#"@
    } else if semitone == 9 {
        "A"@
    } else if semitone == 10 {
        "A#"@
    } else {
        "B"@
    }
}

/// How many semitones above C a letter's natural note lies.
pub open spec fn semitone_of(letter: char) -> Option<int> {
    if letter == 'C' || letter == 'c' {
        Some(0)
    } else if letter == 'D' || letter == 'd' {
        Some(2)
    } else if letter == 'E' || letter == 'e' {
        Some(4)
    } else if letter == 'F' || letter == 'f' {
        Some(5)
    } else if letter == 'G' || letter == 'g' {
        Some(7)
    } else if letter == 'A' || letter == 'a' {
        Some(9)
    } else if letter == 'B' || letter == 'b' {
        Some(11)
    } else {
        None
    }
}

/// How many semitones above C the natural note of `letter` lies, in either case.
pub fn natural_semitone(letter: char) -> (result: Result<u8, NoteError>)
    ensures
        match semitone_of(letter) {
            Some(semitone) => result == Ok::<u8, NoteError>(semitone as u8),
            None => result == Err::<u8, NoteError>(NoteError::Unparsable),
        },
{
    if letter == 'C' || letter == 'c' {
        Ok(0)
    } else if letter == 'D' || letter == 'd' {
        Ok(2)
    } else if letter == 'E' || letter == 'e' {
        Ok(4)
    } else if letter == 'F' || letter == 'f' {
        Ok(5)
    } else if letter == 'G' || letter == 'g' {
        Ok(7)
    } else if letter == 'A' || letter == 'a' {
        Ok(9)
    } else if letter == 'B' || letter == 'b' {
        Ok(11)
    } else {
        Err(NoteError::Unparsable)
    }
}

/// How far an accidental moves a note: up for a sharp, down for a flat.
pub open spec fn accidental(name: Seq<char>) -> int {
    if name.len() > 1 && name[1] == '#' {
        1
    } else if name.len() > 1 && name[1] == 'b' {
        -1
    } else {
        0
    }
}

/// Where the octave of a note name begins.
pub open spec fn octave_start(name: Seq<char>) -> int {
    if accidental(name) == 0 {
        1
    } else {
        2
    }
}

/// The MIDI note number a note name stands for, on the keyboard or not.
pub open spec fn note_number(text: Seq<char>) -> Option<int> {
    let name = text::trimmed(text);
    if name.len() == 0 {
        None
    } else {
        match semitone_of(name[0]) {
            None => None,
            Some(semitone) => match text::integer(name.skip(octave_start(name))) {
                None => None,
                Some(octave) => Some((octave + 1) * 12 + semitone + accidental(name)),
            },
        }
    }
}

/// The key with a number has that number, and keys with one number are one key.
pub proof fn keys_are_their_numbers(number: u8, key: PianoKey)
    ensures
        PianoKey::numbered(number).number() == number,
        PianoKey::numbered(key.number()) == key,
{
}

/// The key a note name stands for, or why there is none.
pub open spec fn named_key(text: Seq<char>) -> Result<PianoKey, NoteError> {
    match note_number(text) {
        None => Err(NoteError::Unparsable),
        Some(number) => if 0 <= number <= 255 {
            key_numbered(number as u8)
        } else {
            Err(NoteError::Unparsable)
        },
    }
}

/// Every key's name reads back as that key.
pub proof fn names_round_trip(number: u8, name: NoteName)
    requires
        on_keyboard(number as int),
        name.pitch_class@ == pitch_class(number as int % 12),
        name.octave == number as int / 12 - 1,
    ensures
        named_key(name.letters()) == Ok::<PianoKey, NoteError>(PianoKey::numbered(number)),
{
    let semitone = number as int % 12;
    let octave = name.octave as int;
    let letters = name.letters();
    reveal_strlit("C");
    reveal_strlit("C#");
    reveal_strlit("D");
    reveal_strlit("D#");
    reveal_strlit("E");
    reveal_strlit("F");
    reveal_strlit("F#");
    reveal_strlit("G");
    reveal_strlit("G#");
    reveal_strlit("A");
    reveal_strlit("A#");
    reveal_strlit("B");
    assert(0 <= octave < 10);
    let digits = text::decimal(octave as nat);
    text::decimal_reads_back(octave as nat);
    assert(digits.len() == 1);
    assert(letters.last() == digits[0]);
    assert(!text::is_space(letters[0]));
    assert(!text::is_space(letters.last()));
    assert(text::trimmed(letters) == letters);
    assert(letters.skip(name.pitch_class@.len() as int) =~= digits);
    assert(octave_start(letters) == name.pitch_class@.len());
    assert(text::integer(digits) == Some(octave));
}

/// The reference pitch the whole instrument is tuned to.
///
/// Holds a validated [`Hz`], so nothing downstream has to check it again.
#[derive(Debug, Clone, Copy, PartialEq, Eq, Structural)]
pub struct Tuning {
    reference: Hz,
}

impl Default for Tuning {
    fn default() -> (tuning: Self)
        ensures
            tuning.pitch().value() == Binary32::from_bits(crate::units::CONCERT_A_BITS),
    {
        Tuning { reference: Hz::concert_a() }
    }
}

impl Tuning {
    /// The reference pitch.
    pub closed spec fn pitch(self) -> Hz {
        self.reference
    }

    /// Tunes the instrument so that A4 sounds at `reference`, which has to be
    /// finite and positive.
    pub fn with_concert_a(reference: Binary32) -> (result: Result<Self, ParamError>)
        ensures
            crate::units::usable(reference) ==> result is Ok && result->Ok_0.pitch().value()
                == reference,
            !crate::units::usable(reference) ==> result == Err::<Self, ParamError>(
                ParamError::Frequency(reference),
            ),
    {
        match Hz::new(reference) {
            Ok(reference) => Ok(Tuning { reference }),
            Err(error) => Err(error),
        }
    }

    /// The reference pitch.
    pub fn reference(self) -> (reference: Hz)
        ensures
            reference == self.pitch(),
    {
        self.reference
    }
}

/// Why an argument does not name a key.
#[derive(Debug, Clone, PartialEq, Eq)]
pub enum KeyError {
    /// The argument is a number, and no key has it.
    MidiNote {
        /// The argument as it was given.
        text: String,
        /// What is wrong with it.
        error: NoteError,
    },
    /// The argument is no number, and no note name either.
    NoteName {
        /// The argument as it was given.
        text: String,
        /// What is wrong with it.
        error: NoteError,
    },
}

impl KeyError {
    /// The words [`KeyError::message`] puts the error in.
    pub open spec fn words(self) -> Seq<char> {
        match self {
            KeyError::MidiNote { text, .. } => "invalid MIDI note: "@ + text@,
            KeyError::NoteName { text, .. } => "invalid note name: "@ + text@,
        }
    }

    /// The error in words, without its cause.
    pub fn message(&self) -> (message: String)
        ensures
            message@ == self.words(),
    {
        match self {
            KeyError::MidiNote { text, .. } => {
                let mut message = String::from_str("invalid MIDI note: ");
                message.append(text.as_str());
                message
            },
            KeyError::NoteName { text, .. } => {
                let mut message = String::from_str("invalid note name: ");
                message.append(text.as_str());
                message
            },
        }
    }

    /// The cause.
    pub fn cause(&self) -> (error: NoteError)
        ensures
            error == match self {
                KeyError::MidiNote { error, .. } => *error,
                KeyError::NoteName { error, .. } => *error,
            },
    {
        match self {
            KeyError::MidiNote { error, .. } => *error,
            KeyError::NoteName { error, .. } => *error,
        }
    }
}

/// The number an argument writes, where it writes one that fits a byte.
pub open spec fn argument_number(text: Seq<char>) -> Option<int> {
    match text::natural(text::trimmed(text)) {
        Some(number) => if number <= 255 {
            Some(number)
        } else {
            None
        },
        None => None,
    }
}

/// Accepts either a note name or a raw MIDI number, so `69` and `A4` are the
/// same key.
pub fn parse_key(text: &str) -> (result: Result<PianoKey, KeyError>)
    ensures
        match argument_number(text@) {
            Some(number) => match key_numbered(number as u8) {
                Ok(key) => result == Ok::<PianoKey, KeyError>(key),
                Err(error) => result matches Err(KeyError::MidiNote { text: given, error: cause })
                    && given@ == text@ && cause == error,
            },
            None => match named_key(text@) {
                Ok(key) => result == Ok::<PianoKey, KeyError>(key),
                Err(error) => result matches Err(KeyError::NoteName { text: given, error: cause })
                    && given@ == text@ && cause == error,
            },
        },
        result matches Ok(key) ==> key.number() == match argument_number(text@) {
            Some(number) => number,
            None => note_number(text@)->0,
        },
{
    let chars = text::characters(text);
    let (start, end) = text::trim(&chars);
    if let Some(midi) = text::parse_u8(&chars, start, end) {
        return match PianoKey::from_midi(midi) {
            Ok(key) => Ok(key),
            Err(error) => Err(KeyError::MidiNote { text: text.to_owned(), error }),
        };
    }
    match PianoKey::parse(text) {
        Ok(key) => Ok(key),
        Err(error) => Err(KeyError::NoteName { text: text.to_owned(), error }),
    }
}

} // verus!
