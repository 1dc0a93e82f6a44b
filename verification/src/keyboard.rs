//! Playing the computer keyboard as a piano: what every key means.
use crate::text;
use vstd::prelude::*;

verus! {

/// Strike strength of every key, 0.85: a typing keyboard has no touch.
pub const DEFAULT_VELOCITY_BITS: u32 = 0x3f59_999a;

/// The keys of the bottom row, from C upwards: one octave and the C above it.
pub open spec fn bottom_row() -> Seq<char> {
    "zsxdcvgbhnjm,"@
}

/// The keys of the top row, which goes on from that same C.
pub open spec fn top_row() -> Seq<char> {
    "q2w3er5t6y7ui9o0p"@
}

/// A letter in lower case, where it has one in ASCII.
pub open spec fn lowered(letter: char) -> char {
    if 'A' <= letter <= 'Z' {
        (letter as u32 + 32) as char
    } else {
        letter
    }
}

/// The key `letter` plays the note `offset` semitones above the lowest.
pub open spec fn plays(letter: char, offset: int) -> bool {
    ||| 0 <= offset < bottom_row().len() && bottom_row()[offset] == lowered(letter)
    ||| 12 <= offset < 12 + top_row().len() && top_row()[offset - 12] == lowered(letter)
}

/// A letter in lower case, where it has one in ASCII.
fn lower(letter: char) -> (result: char)
    ensures
        result == lowered(letter),
{
    if 'A' <= letter && letter <= 'Z' {
        ((letter as u8) + 32) as char
    } else {
        letter
    }
}

/// Where `letter` stands in `row`.
fn position(row: &str, letter: char) -> (found: Option<usize>)
    ensures
        match found {
            Some(index) => index < row@.len() && row@[index as int] == letter,
            None => forall|i: int| 0 <= i < row@.len() ==> #[trigger] row@[i] != letter,
        },
{
    let keys = text::characters(row);
    let mut index: usize = 0;
    while index < keys.len()
        invariant
            keys@ == row@,
            index <= keys@.len(),
            forall|i: int| 0 <= i < index ==> #[trigger] row@[i] != letter,
        decreases keys@.len() - index,
    {
        if keys[index] == letter {
            return Some(index);
        }
        index = index + 1;
    }
    None
}

/// The key with `letter` plays a note.
pub open spec fn plays_a_note(letter: char) -> bool {
    exists|offset: int| plays(letter, offset)
}

/// How many semitones above the lowest note the key `letter` plays, in either
/// case; nothing for a key that plays no note.
pub fn semitone_offset(letter: char) -> (offset: Option<u8>)
    ensures
        match offset {
            Some(offset) => plays(letter, offset as int),
            None => forall|offset: int| !#[trigger] plays(letter, offset),
        },
        offset is Some <==> plays_a_note(letter),
{
    proof {
        reveal_strlit("zsxdcvgbhnjm,");
        reveal_strlit("q2w3er5t6y7ui9o0p");
    }
    let wanted = lower(letter);
    if let Some(index) = position("zsxdcvgbhnjm,", wanted) {
        assert(plays(letter, index as int));
        return Some(index as u8);
    }
    if let Some(index) = position("q2w3er5t6y7ui9o0p", wanted) {
        assert(plays(letter, 12 + index));
        return Some(12 + index as u8);
    }
    None
}

/// No key plays two notes.
pub proof fn keys_play_one_note(letter: char, left: int, right: int)
    requires
        plays(letter, left),
        plays(letter, right),
    ensures
        left == right,
{
    reveal_strlit("zsxdcvgbhnjm,");
    reveal_strlit("q2w3er5t6y7ui9o0p");
}

/// Which key was pressed or released.
#[derive(Debug, Clone, Copy, PartialEq, Eq, Structural)]
pub enum KeyCode {
    /// A key with a character.
    Char(char),
    /// The escape key.
    Escape,
    /// Any other key.
    Other,
}

/// One key event of the terminal.
#[derive(Debug, Clone, Copy, PartialEq, Eq, Structural)]
pub struct KeyEvent {
    /// Which key.
    pub code: KeyCode,
    /// Whether the control key was held.
    pub control: bool,
    /// Whether the key was released rather than pressed.
    pub release: bool,
}

/// What a key event asks for.
#[derive(Debug, Clone, Copy, PartialEq, Eq, Structural)]
pub enum KeyAction {
    /// Nothing.
    Ignore,
    /// Stop playing.
    Quit,
    /// Strike a note.
    NoteOn {
        /// MIDI note number.
        midi: u8,
    },
    /// Release a note.
    NoteOff {
        /// MIDI note number.
        midi: u8,
    },
    /// Turn the damping down, or up.
    NudgeDamping {
        /// Whether it goes up.
        up: bool,
    },
    /// Turn the sustain down, or up.
    NudgeSustain {
        /// Whether it goes up.
        up: bool,
    },
}

/// Escape quits, and so does Ctrl+C.
pub open spec fn quits(key: KeyEvent) -> bool {
    key.code == KeyCode::Escape || (key.code == KeyCode::Char('c') && key.control)
}

/// Whether the key asks to stop.
pub fn should_quit(key: KeyEvent) -> (quit: bool)
    ensures
        quit == quits(key),
{
    match key.code {
        KeyCode::Escape => true,
        KeyCode::Char(letter) => letter == 'c' && key.control,
        KeyCode::Other => false,
    }
}

/// The note `offset` semitones above `base_note`, or the highest there is.
pub open spec fn note_above(base_note: u8, offset: int) -> int {
    if base_note + offset > 255 {
        255
    } else {
        base_note + offset
    }
}

/// `action` is what a key event asks for, with `base_note` on the lowest key.
/// Releases count only where the terminal reports them.
pub open spec fn asks_for(
    key: KeyEvent,
    release_supported: bool,
    base_note: u8,
    action: KeyAction,
) -> bool {
    if key.release {
        match key.code {
            KeyCode::Char(letter) => if release_supported && exists|offset: int|
                plays(letter, offset) {
                action matches KeyAction::NoteOff { midi } && exists|offset: int| #[trigger]
                    plays(letter, offset) && midi == note_above(base_note, offset)
            } else {
                action == KeyAction::Ignore
            },
            _ => action == KeyAction::Ignore,
        }
    } else if quits(key) {
        action == KeyAction::Quit
    } else {
        match key.code {
            KeyCode::Char(letter) => if letter == '[' || letter == ']' {
                action == KeyAction::NudgeDamping { up: letter == ']' }
            } else if letter == '-' || letter == '=' {
                action == KeyAction::NudgeSustain { up: letter == '=' }
            } else if exists|offset: int| plays(letter, offset) {
                action matches KeyAction::NoteOn { midi } && exists|offset: int| #[trigger]
                    plays(letter, offset) && midi == note_above(base_note, offset)
            } else {
                action == KeyAction::Ignore
            },
            _ => action == KeyAction::Ignore,
        }
    }
}

/// Decides what a key event asks for.
pub fn handle_key(key: KeyEvent, release_supported: bool, base_note: u8) -> (action: KeyAction)
    ensures
        asks_for(key, release_supported, base_note, action),
{
    if key.release {
        if !release_supported {
            return KeyAction::Ignore;
        }
        return match key.code {
            KeyCode::Char(letter) => match semitone_offset(letter) {
                Some(offset) => {
                    assert(plays(letter, offset as int));
                    KeyAction::NoteOff { midi: base_note.saturating_add(offset) }
                },
                None => KeyAction::Ignore,
            },
            _ => KeyAction::Ignore,
        };
    }
    if should_quit(key) {
        return KeyAction::Quit;
    }
    match key.code {
        KeyCode::Char(letter) => {
            if letter == '[' || letter == ']' {
                KeyAction::NudgeDamping { up: letter == ']' }
            } else if letter == '-' || letter == '=' {
                KeyAction::NudgeSustain { up: letter == '=' }
            } else {
                match semitone_offset(letter) {
                    Some(offset) => {
                        assert(plays(letter, offset as int));
                        KeyAction::NoteOn { midi: base_note.saturating_add(offset) }
                    },
                    None => KeyAction::Ignore,
                }
            }
        },
        _ => KeyAction::Ignore,
    }
}

} // verus!
