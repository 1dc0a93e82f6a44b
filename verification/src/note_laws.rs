//! What keys, names and typed letters stand for, and what noise is drawn.
use crate::binary32::Binary32;
use crate::keyboard;
use crate::keyboard::{KeyAction, KeyCode, KeyEvent};
use crate::noise::Xorshift32;
use crate::params;
use crate::params::{KeyError, NoteError, NoteName, PianoKey, Tuning};
use crate::text;
use crate::units::{Hz, ParamError, SampleRate};
use vstd::prelude::*;

verus! {

/// A number is a key of the piano from 21 to 108, and that key has that number; any
/// other is refused, and named.
pub proof fn keys_have_their_numbers(
    number: u8,
    result: Result<PianoKey, NoteError>,
    other: u8,
    other_result: Result<PianoKey, NoteError>,
)
    requires
        call_ensures(PianoKey::from_midi, (number,), result),
        call_ensures(PianoKey::from_midi, (other,), other_result),
    ensures
        result is Ok <==> 21 <= number <= 108,
        result is Ok ==> result->Ok_0.number() == number,
        result is Err ==> result->Err_0 == NoteError::OutOfRange(number),
        result is Ok && result == other_result ==> number == other,
{
}

/// A key counts from the lowest, and from concert A; both counts differ by as much for
/// every key.
pub proof fn keys_are_counted_from_two_places(
    key: PianoKey,
    number: u8,
    index: u8,
    semitones: i16,
)
    requires
        call_ensures(PianoKey::midi_number, (key,), number),
        call_ensures(PianoKey::key_index, (key,), index),
        call_ensures(PianoKey::semitones_from_concert_a, (key,), semitones),
    ensures
        number == key.number(),
        index + 21 == number,
        semitones + 69 == number,
        index - semitones == 48,
        index < 88,
{
}

/// A key sounds at the frequency it was given, where that can be sounded, and at the
/// reference otherwise; so do rates and pitches: what is finite and above zero is taken
/// as it is, and nothing else is.
pub proof fn frequencies_are_taken_as_given(
    key: PianoKey,
    tuning: Tuning,
    hertz: Binary32,
    frequency: Hz,
    pitch: Result<Hz, ParamError>,
    rate: Result<SampleRate, ParamError>,
    reference: Result<Tuning, ParamError>,
)
    requires
        call_ensures(PianoKey::frequency, (key, tuning, hertz), frequency),
        call_ensures(Hz::new, (hertz,), pitch),
        call_ensures(SampleRate::new, (hertz,), rate),
        call_ensures(Tuning::with_concert_a, (hertz,), reference),
    ensures
        hertz.magnitude() < 0x7f80_0000 && hertz.rank() > 0
            ==> frequency.value() == hertz && pitch is Ok && pitch->Ok_0.value() == hertz
                && rate is Ok && rate->Ok_0.value() == hertz && reference is Ok
                && reference->Ok_0.pitch().value() == hertz,
        !(hertz.magnitude() < 0x7f80_0000 && hertz.rank() > 0)
            ==> frequency.value() == tuning.pitch().value()
                && pitch == Err::<Hz, ParamError>(ParamError::Frequency(hertz))
                && rate == Err::<SampleRate, ParamError>(ParamError::SampleRate(hertz))
                && reference == Err::<Tuning, ParamError>(ParamError::Frequency(hertz)),
{
}

/// Half the rate is half of it: twice that is the rate again, wherever a number can
/// hold it exactly.
pub proof fn half_a_rate_is_half(
    rate: SampleRate,
    half: Binary32,
)
    requires
        call_ensures(SampleRate::nyquist, (rate,), half),
        rate.value().finite(),
    ensures
        -1 <= 2 * half.units() - rate.value().units() <= 1,
        rate.value().units() % 2 == 0 ==> 2 * half.units() == rate.value().units(),
{
}

/// Every key reads back from its own name.
pub proof fn every_key_reads_back_from_its_name(
    key: PianoKey,
    name: NoteName,
    written: String,
    read: Result<PianoKey, NoteError>,
    text: &str,
)
    requires
        21 <= key.number() <= 108,
        call_ensures(PianoKey::name, (key,), name),
        call_ensures(NoteName::text, (&name,), written),
        text@ == written@,
        call_ensures(PianoKey::parse, (text,), read),
    ensures
        read == Ok::<PianoKey, NoteError>(key),
{
    params::names_round_trip(key.number(), name);
    params::keys_are_their_numbers(key.number(), key);
}

/// Names an octave apart are of one pitch class: the name of the key twelve above has
/// the same letters and the next octave. Names within an octave differ.
pub proof fn octaves_share_their_letters(
    key: PianoKey,
    higher: PianoKey,
    name: NoteName,
    other: NoteName,
)
    requires
        call_ensures(PianoKey::name, (key,), name),
        call_ensures(PianoKey::name, (higher,), other),
        key.number() < higher.number(),
    ensures
        higher.number() == key.number() + 12
            ==> other.pitch_class@ == name.pitch_class@ && other.octave == name.octave + 1,
        higher.number() < key.number() + 12 ==> other.pitch_class@ != name.pitch_class@,
        key.number() == 69 ==> name.pitch_class@ == seq!['A'] && name.octave == 4,
{
    reveal_strlit("C");
    reveal_strlit("C#");
    reveal_strlit("D");
    reveal_strlit("D#");
    reveal_strlit("E");
    reveal_strlit("F");
    reveal_strlit("F#");
    reveal_strlit("G");
    reveal_strlit("G#");
    reveal_strlit("A");
    reveal_strlit("A#");
    reveal_strlit("B");
    let low = name.pitch_class@;
    let high = other.pitch_class@;
    if higher.number() < key.number() + 12 {
        let one = key.number() as int % 12;
        let two = higher.number() as int % 12;
        assert(one != two);
        assert("C"@[0] == 'C' && "C#"@[0] == 'C' && "D"@[0] == 'D' && "D#"@[0] == 'D');
        assert("E"@[0] == 'E' && "F"@[0] == 'F' && "F#"@[0] == 'F' && "G"@[0] == 'G');
        assert("G#"@[0] == 'G' && "A"@[0] == 'A' && "A#"@[0] == 'A' && "B"@[0] == 'B');
        assert("C"@.len() == 1 && "D"@.len() == 1 && "F"@.len() == 1 && "G"@.len() == 1);
        assert("A"@.len() == 1 && "C#"@.len() == 2 && "D#"@.len() == 2 && "F#"@.len() == 2);
        assert("G#"@.len() == 2 && "A#"@.len() == 2 && "E"@.len() == 1 && "B"@.len() == 1);
        assert(low[0] != high[0] || low.len() != high.len());
    }
    assert("A"@ =~= seq!['A']);
}

/// How far the note of a letter lies above the C of its octave.
pub open spec fn semitones_of(letter: char) -> int {
    if letter == 'C' {
        0
    } else if letter == 'D' {
        2
    } else if letter == 'E' {
        4
    } else if letter == 'F' {
        5
    } else if letter == 'G' {
        7
    } else if letter == 'A' {
        9
    } else {
        11
    }
}

proof fn lemma_untrimmed(text: Seq<char>, octave: Seq<char>)
    requires
        text.len() > octave.len() > 0,
        text.skip(text.len() - octave.len()) == octave,
        text::is_decimal(octave),
        !text::is_space(text[0]),
    ensures
        text::trimmed(text) == text,
{
    assert(text.last() == octave.last()) by {
        assert(text.skip(text.len() - octave.len())[octave.len() - 1] == text.last());
    }
    assert(text::is_digit(octave[octave.len() - 1]));
}

/// A sharp is a semitone above its letter and a flat a semitone below; a letter may be
/// written small; and an octave more is twelve semitones more.
pub proof fn accidentals_are_semitones(
    letter: char,
    small: char,
    octave: Seq<char>,
    plain: &str,
    sharp: &str,
    flat: &str,
    lower: &str,
    one: Result<PianoKey, NoteError>,
    above: Result<PianoKey, NoteError>,
    below: Result<PianoKey, NoteError>,
    same: Result<PianoKey, NoteError>,
)
    requires
        'A' <= letter <= 'G',
        small as int == letter as int + 32,
        text::is_decimal(octave),
        plain@ == seq![letter] + octave,
        sharp@ == seq![letter, '#'] + octave,
        flat@ == seq![letter, 'b'] + octave,
        lower@ == seq![small] + octave,
        call_ensures(PianoKey::parse, (plain,), one),
        call_ensures(PianoKey::parse, (sharp,), above),
        call_ensures(PianoKey::parse, (flat,), below),
        call_ensures(PianoKey::parse, (lower,), same),
    ensures
        same == one,
        one is Ok && above is Ok ==> above->Ok_0.number() == one->Ok_0.number() + 1,
        one is Ok && below is Ok ==> below->Ok_0.number() == one->Ok_0.number() - 1,
        one is Ok && one->Ok_0.number() < 108 ==> above is Ok,
        one is Ok && one->Ok_0.number() > 21 ==> below is Ok,
        one is Ok
            ==> one->Ok_0.number() == 12 * (text::decimal_value(octave) + 1) + semitones_of(letter),
        21 <= 12 * (text::decimal_value(octave) + 1) + semitones_of(letter) <= 108 ==> one is Ok,
{
    assert(plain@.skip(1) =~= octave);
    assert(lower@.skip(1) =~= octave);
    assert(sharp@.skip(2) =~= octave);
    assert(flat@.skip(2) =~= octave);
    lemma_untrimmed(plain@, octave);
    lemma_untrimmed(sharp@, octave);
    lemma_untrimmed(flat@, octave);
    lemma_untrimmed(lower@, octave);
    assert(text::is_digit(octave[0]));
    assert(plain@.len() > 1 ==> plain@[1] == octave[0]);
    assert(lower@.len() > 1 ==> lower@[1] == octave[0]);
    params::keys_are_their_numbers(0, PianoKey::numbered(0));
    if one is Ok && same is Ok {
        params::keys_are_their_numbers(0, one->Ok_0);
        params::keys_are_their_numbers(0, same->Ok_0);
    }
}

/// A typed letter plays as many semitones above the base as its place in the lower row
/// says, and a letter of the upper row twelve more than its place there; in small
/// letters or large.
pub proof fn letters_play_by_their_place(
    letter: char,
    place: int,
    offset: Option<u8>,
    large: char,
    other: Option<u8>,
)
    requires
        call_ensures(keyboard::semitone_offset, (letter,), offset),
        'a' <= letter <= 'z' ==> large as int == letter as int - 32,
        !('a' <= letter <= 'z') ==> large == letter,
        call_ensures(keyboard::semitone_offset, (large,), other),
    ensures
        other == offset,
        0 <= place < 13
            && letter == seq!['z', 's', 'x', 'd', 'c', 'v', 'g', 'b', 'h', 'n', 'j', 'm', ','][place]
            ==> offset == Some(place as u8),
        0 <= place < 17
            && letter == seq!['q', '2', 'w', '3', 'e', 'r', '5', 't', '6', 'y', '7', 'u', 'i', '9', 'o', '0', 'p'][place]
            ==> offset == Some((12 + place) as u8),
        offset is Some ==> offset->0 < 29,
{
    reveal_strlit("zsxdcvgbhnjm,");
    reveal_strlit("q2w3er5t6y7ui9o0p");
    assert(keyboard::lowered(large) == keyboard::lowered(letter));
    if offset is Some {
        assert(keyboard::plays(large, offset->0 as int));
        keyboard::keys_play_one_note(large, offset->0 as int, other->0 as int);
    }
    if other is Some {
        assert(keyboard::plays(letter, other->0 as int));
    }
    if 0 <= place < 13 && letter == seq![
        'z',
        's',
        'x',
        'd',
        'c',
        'v',
        'g',
        'b',
        'h',
        'n',
        'j',
        'm',
        ',',
    ][place] {
        assert(keyboard::plays(letter, place));
        assert(keyboard::plays_a_note(letter));
        assert(keyboard::plays(letter, offset->0 as int));
        keyboard::keys_play_one_note(letter, place, offset->0 as int);
    }
    if 0 <= place < 17 && letter == seq![
        'q',
        '2',
        'w',
        '3',
        'e',
        'r',
        '5',
        't',
        '6',
        'y',
        '7',
        'u',
        'i',
        '9',
        'o',
        '0',
        'p',
    ][place] {
        assert(keyboard::top_row()[place] == letter);
        assert(keyboard::plays(letter, 12 + place));
        assert(keyboard::plays_a_note(letter));
        assert(keyboard::plays(letter, offset->0 as int));
        keyboard::keys_play_one_note(letter, 12 + place, offset->0 as int);
    }
}

/// A key that plays strikes its note when pressed and lets it go when released, the
/// same note both times, where releases are told apart at all. The brackets nudge the
/// damping and minus and equals the sustain; escape and control-c quit, when pressed.
pub proof fn presses_and_releases_are_of_one_note(
    letter: char,
    control: bool,
    base: u8,
    offset: Option<u8>,
    pressed: KeyAction,
    released: KeyAction,
    unsupported: KeyAction,
)
    requires
        call_ensures(keyboard::semitone_offset, (letter,), offset),
        call_ensures(
            keyboard::handle_key,
            (KeyEvent { code: KeyCode::Char(letter), control, release: false }, true, base),
            pressed,
        ),
        call_ensures(
            keyboard::handle_key,
            (KeyEvent { code: KeyCode::Char(letter), control, release: true }, true, base),
            released,
        ),
        call_ensures(
            keyboard::handle_key,
            (KeyEvent { code: KeyCode::Char(letter), control, release: true }, false, base),
            unsupported,
        ),
    ensures
        offset is Some && !(letter == 'c' && control) && base + offset->0 <= 255
            ==> pressed == (KeyAction::NoteOn { midi: (base + offset->0) as u8 })
                && released == (KeyAction::NoteOff { midi: (base + offset->0) as u8 }),
        unsupported == KeyAction::Ignore,
        letter == 'c' && control ==> pressed == KeyAction::Quit,
        letter == '[' || letter == ']'
            ==> pressed == (KeyAction::NudgeDamping { up: letter == ']' })
                && released == KeyAction::Ignore,
        letter == '-' || letter == '='
            ==> pressed == (KeyAction::NudgeSustain { up: letter == '=' })
                && released == KeyAction::Ignore,
        offset is None && letter != '[' && letter != ']' && letter != '-' && letter != '='
            ==> pressed == KeyAction::Ignore && released == KeyAction::Ignore,
{
    reveal_strlit("zsxdcvgbhnjm,");
    reveal_strlit("q2w3er5t6y7ui9o0p");
    if keyboard::plays_a_note(letter) {
        assert(offset is Some);
    }
    if letter == 'c' {
        assert(keyboard::bottom_row()[4] == 'c');
        assert(keyboard::plays(letter, 4));
    }
    if offset is Some {
        assert(keyboard::plays(letter, offset->0 as int));
        assert forall|other: int| #[trigger] keyboard::plays(letter, other) implies other
            == offset->0 by {
            keyboard::keys_play_one_note(letter, other, offset->0 as int);
        }
    }
}

/// A key without a character plays nothing; escape quits when pressed, and nothing
/// quits when released.
pub proof fn other_keys_play_nothing(
    control: bool,
    supported: bool,
    base: u8,
    release: bool,
    escape: KeyAction,
    other: KeyAction,
)
    requires
        call_ensures(
            keyboard::handle_key,
            (KeyEvent { code: KeyCode::Escape, control, release }, supported, base),
            escape,
        ),
        call_ensures(
            keyboard::handle_key,
            (KeyEvent { code: KeyCode::Other, control, release }, supported, base),
            other,
        ),
    ensures
        release ==> escape == KeyAction::Ignore,
        !release ==> escape == KeyAction::Quit,
        other == KeyAction::Ignore,
{
}

proof fn lemma_successors_differ(one: u32, two: u32)
    ensures
        crate::noise::successor(one) == crate::noise::successor(two) ==> one == two,
{
    let a = one ^ (one << 13);
    let b = two ^ (two << 13);
    let c = a ^ (a >> 17);
    let d = b ^ (b >> 17);
    assert(one ^ (one << 13) == two ^ (two << 13) ==> one == two) by (bit_vector);
    assert(a ^ (a >> 17) == b ^ (b >> 17) ==> a == b) by (bit_vector);
    assert(c ^ (c << 5) == d ^ (d << 5) ==> c == d) by (bit_vector);
}

/// Generators draw one run for each state: seeded alike they draw alike, and two
/// generators that draw one number are in one state, before and after. A seed of zero
/// is replaced.
pub proof fn draws_tell_states_apart(
    one: Xorshift32,
    two: Xorshift32,
    one_after: Xorshift32,
    two_after: Xorshift32,
    drawn: u32,
    other: u32,
    seed: u32,
    seeded: Xorshift32,
)
    requires
        exists|generator: &mut Xorshift32| #[trigger]
            call_ensures(Xorshift32::next_u32, (generator,), drawn)
                && *generator == one && *final(generator) == one_after,
        exists|generator: &mut Xorshift32| #[trigger]
            call_ensures(Xorshift32::next_u32, (generator,), other)
                && *generator == two && *final(generator) == two_after,
        call_ensures(Xorshift32::new, (seed,), seeded),
    ensures
        drawn == other <==> one.state() == two.state(),
        one_after.state() == drawn,
        seed != 0 ==> seeded.state() == seed,
        seed == 0 ==> seeded.state() == 0x9E37_79B9,
        drawn != 0,
        ({
            let first = one.state() ^ (one.state() << 13);
            let second = first ^ (first >> 17);
            drawn == second ^ (second << 5)
        }),
{
    lemma_successors_differ(one.state(), two.state());
}

proof fn lemma_start(text: Seq<char>) -> (from: int)
    ensures
        0 <= from <= text.len(),
        text::trimmed_start(text) == text.skip(from),
        forall|i: int| 0 <= i < from ==> text::is_space(#[trigger] text[i]),
        from < text.len() ==> !text::is_space(text[from]),
    decreases text.len(),
{
    if text.len() > 0 && text::is_space(text[0]) {
        let rest = text.drop_first();
        let from = lemma_start(rest);
        assert(text.skip(from + 1) =~= rest.skip(from));
        assert forall|i: int| 0 <= i < from + 1 implies text::is_space(#[trigger] text[i]) by {
            if i > 0 {
                assert(rest[i - 1] == text[i]);
            }
        }
        if from + 1 < text.len() {
            assert(rest[from] == text[from + 1]);
        }
        from + 1
    } else {
        assert(text.skip(0) =~= text);
        0
    }
}

proof fn lemma_end(text: Seq<char>) -> (to: int)
    ensures
        0 <= to <= text.len(),
        text::trimmed_end(text) == text.take(to),
        forall|i: int| to <= i < text.len() ==> text::is_space(#[trigger] text[i]),
        to > 0 ==> !text::is_space(text[to - 1]),
    decreases text.len(),
{
    if text.len() > 0 && text::is_space(text.last()) {
        let rest = text.drop_last();
        let to = lemma_end(rest);
        assert(text.take(to) =~= rest.take(to));
        assert forall|i: int| to <= i < text.len() implies text::is_space(#[trigger] text[i]) by {
            if i < text.len() - 1 {
                assert(rest[i] == text[i]);
            }
        }
        if to > 0 {
            assert(rest[to - 1] == text[to - 1]);
        }
        to
    } else {
        assert(text.take(text.len() as int) =~= text);
        text.len() as int
    }
}

proof fn lemma_trimmed(text: Seq<char>) -> (bounds: (int, int))
    ensures
        0 <= bounds.0 <= bounds.1 <= text.len(),
        text::trimmed(text) == text.subrange(bounds.0, bounds.1),
        forall|i: int| 0 <= i < bounds.0 ==> text::is_space(#[trigger] text[i]),
        forall|i: int| bounds.1 <= i < text.len() ==> text::is_space(#[trigger] text[i]),
        bounds.0 < bounds.1 ==> !text::is_space(text[bounds.0]) && !text::is_space(
            text[bounds.1 - 1],
        ),
{
    let from = lemma_start(text);
    let rest = text.skip(from);
    let to = lemma_end(rest);
    assert(text.subrange(from, from + to) =~= rest.take(to));
    assert forall|i: int| from + to <= i < text.len() implies text::is_space(#[trigger] text[i]) by {
        assert(rest[i - from] == text[i]);
    }
    if to > 0 {
        assert(rest[to - 1] == text[from + to - 1]);
        assert(rest[0] == text[from]);
    }
    (from, from + to)
}

/// A text is trimmed of white space at both ends, and of nothing else: what stands
/// before and behind what is kept is white space, and what is kept neither begins nor
/// ends with any.
pub proof fn texts_are_trimmed_at_both_ends(
    chars: &Vec<char>,
    bounds: (usize, usize),
    kept: Seq<char>,
)
    requires
        call_ensures(text::trim, (chars,), bounds),
        kept == chars@.subrange(bounds.0 as int, bounds.1 as int),
    ensures
        exists|from: int, to: int|
            {
                &&& 0 <= from <= to <= chars@.len()
                &&& #[trigger] chars@.subrange(from, to) == kept
                &&& forall|i: int| 0 <= i < from ==> text::is_space(#[trigger] chars@[i])
                &&& forall|i: int| to <= i < chars@.len() ==> text::is_space(#[trigger] chars@[i])
            },
        kept.len() > 0 ==> !text::is_space(kept[0]) && !text::is_space(kept[kept.len() - 1]),
{
    let (from, to) = lemma_trimmed(chars@);
    assert(chars@.subrange(from, to) == kept);
}

/// A number that was written is the number that is read, for every number up to 255;
/// with a minus sign before it, its negative is read.
pub proof fn numbers_read_back(
    number: u32,
    before: Seq<char>,
    after: Seq<char>,
    chars: &Vec<char>,
    small: Option<u8>,
    whole: Option<i32>,
    signed: &Vec<char>,
    negative: Option<i32>,
)
    requires
        number <= 255,
        exists|text: &mut String|
            #[trigger] call_ensures(text::append_decimal, (text, number), ()) && (*text)@ == before
                && (*final(text))@ == after,
        chars@ == after,
        before.len() <= after.len(),
        after.len() <= usize::MAX,
        signed@ == seq!['-'] + after.skip(before.len() as int),
        signed@.len() <= usize::MAX,
        call_ensures(text::parse_u8, (chars, before.len() as usize, after.len() as usize), small),
        call_ensures(text::parse_i32, (chars, before.len() as usize, after.len() as usize), whole),
        call_ensures(text::parse_i32, (signed, 0usize, signed@.len() as usize), negative),
    ensures
        after.take(before.len() as int) == before,
        small == Some(number as u8),
        whole == Some(number as i32),
        negative == Some(-(number as i32) as i32),
{
    let digits = text::decimal(number as nat);
    text::decimal_reads_back(number as nat);
    assert(after =~= before + digits);
    assert(after.take(before.len() as int) =~= before);
    assert(chars@.subrange(before.len() as int, after.len() as int) =~= digits);
    assert(after.skip(before.len() as int) =~= digits);
    assert(signed@.subrange(0, signed@.len() as int) =~= signed@);
    assert(signed@.drop_first() =~= digits);
    assert(text::is_digit(digits[0]));
}

/// An argument that is a number is the key of that number; any other is a name, and
/// read as one. Whatever is refused is named as it was given.
pub proof fn arguments_are_numbers_or_names(
    argument: &str,
    key: Result<PianoKey, KeyError>,
    named: Result<PianoKey, NoteError>,
    number: u8,
    numbered: Result<PianoKey, NoteError>,
)
    requires
        call_ensures(params::parse_key, (argument,), key),
        call_ensures(PianoKey::parse, (argument,), named),
        call_ensures(PianoKey::from_midi, (number,), numbered),
    ensures
        text::natural(text::trimmed(argument@)) == Some(number as int) && numbered is Ok
            ==> key == Ok::<PianoKey, KeyError>(numbered->Ok_0),
        text::natural(text::trimmed(argument@)) == Some(number as int) && numbered is Err
            ==> key is Err && key->Err_0 is MidiNote && key->Err_0->MidiNote_text@ == argument@
                && key->Err_0->MidiNote_error == numbered->Err_0,
        text::natural(text::trimmed(argument@)) is None && named is Ok
            ==> key == Ok::<PianoKey, KeyError>(named->Ok_0),
        text::natural(text::trimmed(argument@)) is None && named is Err
            ==> key is Err && key->Err_0 is NoteName && key->Err_0->NoteName_text@ == argument@
                && key->Err_0->NoteName_error == named->Err_0,
{
}

/// A text is found inside another wherever it stands there, letter by letter, at the
/// beginning, in the middle or at the end; and nowhere else.
pub proof fn texts_are_found_anywhere(
    outer: &Vec<char>,
    inner: &Vec<char>,
    found: bool,
    start: int,
)
    requires
        call_ensures(text::is_inside, (outer, inner), found),
    ensures
        0 <= start && start + inner@.len() <= outer@.len()
            && (forall|i: int| 0 <= i < inner@.len() ==> #[trigger] inner@[i] == outer@[start + i])
            ==> found,
        found
            ==> exists|at: int| 0 <= at
                && #[trigger] outer@.subrange(at, at + inner@.len()) == inner@
                && at + inner@.len() <= outer@.len(),
{
    if 0 <= start && start + inner@.len() <= outer@.len() && (forall|i: int|
        0 <= i < inner@.len() ==> #[trigger] inner@[i] == outer@[start + i]) {
        assert(outer@.subrange(start, start + inner@.len()) =~= inner@);
        assert(text::found_at(outer@, inner@, start));
    }
    if found {
        let at = choose|at: int| text::found_at(outer@, inner@, at);
        assert(outer@.subrange(at, at + inner@.len()) == inner@);
    }
}

/// What is refused says why, in words that hold what was refused.
pub proof fn refusals_say_what_was_refused(
    number: u8,
    outside: String,
    unread: String,
    key: &KeyError,
    named: String,
)
    requires
        call_ensures(NoteError::message, (&NoteError::OutOfRange(number),), outside),
        call_ensures(NoteError::message, (&NoteError::Unparsable,), unread),
        call_ensures(KeyError::message, (key,), named),
    ensures
        outside@ == "MIDI note "@ + text::decimal(number as nat) + " is outside the piano range 21..=108"@,
        unread@ == "could not parse a note name; expected something like A4, C#3 or Bb2"@,
        *key is MidiNote ==> named@ == "invalid MIDI note: "@ + key->MidiNote_text@,
        *key is NoteName ==> named@ == "invalid note name: "@ + key->NoteName_text@,
{
}

} // verus!
