use piano::keyboard::{
    handle_key, semitone_offset, should_quit, KeyAction, KeyCode, KeyEvent, DEFAULT_VELOCITY_BITS,
};

fn press(letter: char) -> KeyEvent {
    KeyEvent { code: KeyCode::Char(letter), control: false, release: false }
}

fn release(letter: char) -> KeyEvent {
    KeyEvent { code: KeyCode::Char(letter), control: false, release: true }
}

#[test]
fn every_key_of_both_rows_plays_its_semitone() {
    let layout = [
        ('z', 0),
        ('s', 1),
        ('x', 2),
        ('d', 3),
        ('c', 4),
        ('v', 5),
        ('g', 6),
        ('b', 7),
        ('h', 8),
        ('n', 9),
        ('j', 10),
        ('m', 11),
        (',', 12),
        ('q', 12),
        ('2', 13),
        ('w', 14),
        ('3', 15),
        ('e', 16),
        ('r', 17),
        ('5', 18),
        ('t', 19),
        ('6', 20),
        ('y', 21),
        ('7', 22),
        ('u', 23),
        ('i', 24),
        ('9', 25),
        ('o', 26),
        ('0', 27),
        ('p', 28),
    ];
    for (letter, offset) in layout {
        assert_eq!(semitone_offset(letter), Some(offset), "{letter}");
        assert_eq!(semitone_offset(letter.to_ascii_uppercase()), Some(offset), "{letter}");
    }
    let playing: Vec<char> = layout.iter().map(|(letter, _)| *letter).collect();
    for code in 0..0x500u32 {
        if let Some(letter) = char::from_u32(code) {
            if !playing.contains(&letter.to_ascii_lowercase()) {
                assert_eq!(semitone_offset(letter), None, "{letter}");
            }
        }
    }
}

#[test]
fn keys_strike_and_release_notes_above_the_base() {
    assert_eq!(handle_key(press('z'), false, 60), KeyAction::NoteOn { midi: 60 });
    assert_eq!(handle_key(press('Q'), false, 60), KeyAction::NoteOn { midi: 72 });
    assert_eq!(handle_key(release('p'), true, 60), KeyAction::NoteOff { midi: 88 });
    assert_eq!(handle_key(release('p'), false, 60), KeyAction::Ignore);
    assert_eq!(handle_key(press('k'), true, 60), KeyAction::Ignore);
    assert_eq!(handle_key(release('k'), true, 60), KeyAction::Ignore);
    assert_eq!(handle_key(press('p'), false, 250), KeyAction::NoteOn { midi: 255 });
    assert_eq!(f32::from_bits(DEFAULT_VELOCITY_BITS), 0.85);
}

#[test]
fn brackets_and_dashes_turn_the_knobs() {
    assert_eq!(handle_key(press('['), false, 60), KeyAction::NudgeDamping { up: false });
    assert_eq!(handle_key(press(']'), false, 60), KeyAction::NudgeDamping { up: true });
    assert_eq!(handle_key(press('-'), false, 60), KeyAction::NudgeSustain { up: false });
    assert_eq!(handle_key(press('='), false, 60), KeyAction::NudgeSustain { up: true });
    assert_eq!(handle_key(release('['), true, 60), KeyAction::Ignore);
}

#[test]
fn escape_and_control_c_quit() {
    let escape = KeyEvent { code: KeyCode::Escape, control: false, release: false };
    let control_c = KeyEvent { code: KeyCode::Char('c'), control: true, release: false };
    assert!(should_quit(escape));
    assert!(should_quit(control_c));
    assert!(!should_quit(press('c')));
    assert_eq!(handle_key(escape, false, 60), KeyAction::Quit);
    assert_eq!(handle_key(control_c, false, 60), KeyAction::Quit);
    assert_eq!(handle_key(press('c'), false, 60), KeyAction::NoteOn { midi: 64 });
    // A release never quits.
    let released = KeyEvent { code: KeyCode::Escape, control: false, release: true };
    assert_eq!(handle_key(released, true, 60), KeyAction::Ignore);
    let other = KeyEvent { code: KeyCode::Other, control: true, release: false };
    assert_eq!(handle_key(other, true, 60), KeyAction::Ignore);
}
