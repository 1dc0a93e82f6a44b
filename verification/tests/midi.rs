use piano::binary32::Binary32;
use piano::commands::Command;
use piano::midi::{
    apply, drain_midi, on_midi_message, translate, DataByte, MidiEvent, MidiListener,
    EVENT_QUEUE_CAPACITY, MAX_EVENTS_PER_TICK,
};
use piano::session::{AudioSession, COMMAND_QUEUE_CAPACITY};
use piano::units::SampleRate;

fn bits(value: f32) -> Binary32 {
    Binary32::from_bits(value.to_bits())
}

fn number(value: Binary32) -> f32 {
    f32::from_bits(value.to_bits())
}

fn rate() -> SampleRate {
    SampleRate::new(bits(48_000.0)).expect("48 kHz is valid")
}

/// Everything waiting in a session's ring, in order.
fn drained(consumer: &mut rtrb::Consumer<Command>) -> Vec<Command> {
    let mut all = Vec::new();
    while let Ok(command) = consumer.pop() {
        all.push(command);
    }
    all
}

/// Feeds `messages` in as raw bytes and returns every command they produced.
fn play_bytes(messages: &[&[u8]]) -> Vec<Command> {
    let (mut session, mut consumer) = AudioSession::open(rate());
    for message in messages {
        if let Some(event) = MidiEvent::decode(message) {
            apply(&mut session, event);
        }
    }
    drained(&mut consumer)
}

fn struck(midi: u8, velocity: f32) -> Command {
    Command::NoteOn { midi, velocity: bits(velocity) }
}

/// Middle C, struck hard.
const MIDDLE_C_ON: &[u8] = &[0x90, 60, 100];
/// Middle C released.
const MIDDLE_C_OFF: &[u8] = &[0x80, 60, 64];

#[test]
fn decodes_a_note_on() {
    let event = MidiEvent::decode(&[0x90, 69, 100]);
    assert_eq!(event, Some(MidiEvent::NoteOn { note: 69, velocity: DataByte { data: 100 } }));
    assert_eq!(number(DataByte { data: 100 }.normalize()), 100.0 / 127.0);
}

#[test]
fn a_note_on_with_zero_velocity_is_a_note_off() {
    assert_eq!(MidiEvent::decode(&[0x90, 69, 0]), Some(MidiEvent::NoteOff { note: 69 }));
}

#[test]
fn decodes_an_explicit_note_off() {
    assert_eq!(MidiEvent::decode(&[0x80, 69, 64]), Some(MidiEvent::NoteOff { note: 69 }));
}

#[test]
fn decodes_a_control_change() {
    assert_eq!(
        MidiEvent::decode(&[0xB0, 74, 127]),
        Some(MidiEvent::ControlChange { controller: 74, value: DataByte { data: 127 } })
    );
    assert_eq!(number(DataByte { data: 127 }.normalize()), 1.0);
}

#[test]
fn respects_the_channel_nibble() {
    assert_eq!(
        MidiEvent::decode(&[0x92, 60, 90]),
        Some(MidiEvent::NoteOn { note: 60, velocity: DataByte { data: 90 } })
    );
    assert_eq!(number(DataByte { data: 90 }.normalize()), 90.0 / 127.0);
}

#[test]
fn ignores_messages_it_does_not_understand() {
    assert_eq!(MidiEvent::decode(&[0xC0, 5]), None);
    assert_eq!(MidiEvent::decode(&[0xE0, 0, 64]), None);
    assert_eq!(MidiEvent::decode(&[0xF8]), None);
    assert_eq!(MidiEvent::decode(&[]), None);
}

#[test]
fn pressing_a_key_on_the_controller_strikes_that_note() {
    assert_eq!(play_bytes(&[MIDDLE_C_ON]), vec![struck(60, 100.0 / 127.0)]);
}

#[test]
fn releasing_a_key_on_the_controller_releases_that_note() {
    assert_eq!(
        play_bytes(&[MIDDLE_C_ON, MIDDLE_C_OFF]),
        vec![struck(60, 100.0 / 127.0), Command::NoteOff { midi: 60 }]
    );
}

#[test]
fn a_note_on_at_zero_velocity_releases_rather_than_striking_silently() {
    assert_eq!(
        play_bytes(&[MIDDLE_C_ON, &[0x90, 60, 0]]),
        vec![struck(60, 100.0 / 127.0), Command::NoteOff { midi: 60 }]
    );
}

#[test]
fn a_chord_strikes_every_note_in_it() {
    let played = play_bytes(&[&[0x90, 60, 90], &[0x90, 64, 90], &[0x90, 67, 90]]);
    let struck: Vec<u8> = played
        .iter()
        .filter_map(|call| match call {
            Command::NoteOn { midi, .. } => Some(*midi),
            _ => None,
        })
        .collect();
    assert_eq!(struck, vec![60, 64, 67], "a C major triad lost a note");
}

#[test]
fn a_controller_on_any_channel_is_heard() {
    for channel in 0..16u8 {
        let played = play_bytes(&[&[0x90 | channel, 60, 100]]);
        assert!(
            matches!(played.as_slice(), [Command::NoteOn { midi: 60, .. }]),
            "channel {channel} was ignored"
        );
    }
}

#[test]
fn the_sustain_pedal_goes_down_and_comes_back_up() {
    assert_eq!(
        play_bytes(&[&[0xB0, 64, 127], &[0xB0, 64, 0]]),
        vec![
            Command::SustainPedal { down: true },
            Command::SustainPedal { down: false },
        ]
    );
}

#[test]
fn the_pedal_threshold_sits_where_the_midi_specification_puts_it() {
    assert_eq!(
        play_bytes(&[&[0xB0, 64, 63]]),
        vec![Command::SustainPedal { down: false }]
    );
    assert_eq!(
        play_bytes(&[&[0xB0, 64, 64]]),
        vec![Command::SustainPedal { down: true }]
    );
}

#[test]
fn the_brightness_knob_is_inverted_into_damping() {
    assert_eq!(
        play_bytes(&[&[0xB0, 74, 127]]),
        vec![Command::SetDamping { damping: bits(0.0) }]
    );
    assert_eq!(
        play_bytes(&[&[0xB0, 74, 0]]),
        vec![Command::SetDamping { damping: bits(1.0) }]
    );
}

#[test]
fn the_modulation_wheel_sets_sustain() {
    assert_eq!(
        play_bytes(&[&[0xB0, 1, 127]]),
        vec![Command::SetSustain { sustain: bits(1.0) }]
    );
}

#[test]
fn the_pedal_and_the_sustain_knob_are_not_the_same_control() {
    assert_eq!(
        play_bytes(&[&[0xB0, 64, 127], &[0xB0, 1, 127]]),
        vec![
            Command::SustainPedal { down: true },
            Command::SetSustain { sustain: bits(1.0) },
        ]
    );
}

#[test]
fn a_control_this_instrument_does_not_map_changes_nothing() {
    assert!(play_bytes(&[&[0xB0, 7, 100], &[0xB0, 10, 64]]).is_empty());
}

#[test]
fn messages_this_synthesiser_does_not_act_on_are_dropped_not_misread() {
    let played = play_bytes(&[
        &[0xE0, 0, 64],
        &[0xC0, 5],
        &[0xD0, 64],
        &[0xA0, 60, 64],
        &[0xF8],
        &[0xFE],
        &[],
    ]);
    assert!(
        played.is_empty(),
        "a non-note message reached the engine: {played:?}"
    );
}

#[test]
fn a_truncated_message_never_panics() {
    for message in [
        [0x90].as_slice(),
        &[0x90, 60],
        &[0xB0],
        &[0xB0, 64],
        &[0x80, 60],
    ] {
        let _ = play_bytes(&[message]);
    }
}

#[test]
fn every_key_of_an_88_key_piano_reaches_the_engine() {
    for note in 21..=108u8 {
        let played = play_bytes(&[&[0x90, note, 64]]);
        assert!(
            matches!(played.as_slice(), [Command::NoteOn { midi, .. }] if *midi == note),
            "MIDI note {note} did not reach the instrument"
        );
    }
}

#[test]
fn every_velocity_arrives_inside_the_unit_range_and_in_order() {
    let mut previous = 0.0f32;
    for velocity in 1..=127u8 {
        let played = play_bytes(&[&[0x90, 60, velocity]]);
        let [Command::NoteOn { velocity: sent, .. }] = played.as_slice() else {
            panic!("velocity {velocity} did not produce a strike");
        };
        let sent = number(*sent);
        assert!(
            (0.0..=1.0).contains(&sent),
            "velocity {velocity} normalised to {sent}"
        );
        assert!(sent > previous, "velocity {velocity} did not rise");
        previous = sent;
    }
    assert!(
        (previous - 1.0).abs() < f32::EPSILON,
        "full velocity normalised to {previous}, not 1.0"
    );
}

#[test]
fn the_studio_answers_every_midi_control_piano_midi_does() {
    let mut played = Vec::new();
    for message in [
        [0x90u8, 60, 100].as_slice(),
        &[0xB0, 64, 127],
        &[0x80, 60, 64],
        &[0xB0, 64, 0],
        &[0xB0, 74, 0],
        &[0xB0, 1, 127],
    ] {
        let event = MidiEvent::decode(message).expect("a message this instrument acts on");
        played.extend(translate(event));
    }
    assert_eq!(
        played,
        vec![
            struck(60, 100.0 / 127.0),
            Command::SustainPedal { down: true },
            Command::NoteOff { midi: 60 },
            Command::SustainPedal { down: false },
            Command::SetDamping { damping: bits(1.0) },
            Command::SetSustain { sustain: bits(1.0) },
        ],
        "a control was dropped"
    );
}

#[test]
fn messages_travel_from_the_driver_to_the_session_in_order() {
    let (mut producer, mut listener) = MidiListener::open("Digital Piano".to_owned());
    assert_eq!(listener.port_name(), "Digital Piano");
    assert!(on_midi_message(MIDDLE_C_ON, &mut producer));
    assert!(!on_midi_message(&[0xF8], &mut producer));
    assert!(on_midi_message(&[0xB0, 7, 1], &mut producer));
    assert!(on_midi_message(MIDDLE_C_OFF, &mut producer));
    let (mut session, mut consumer) = AudioSession::open(rate());
    drain_midi(&mut session, &mut listener);
    assert_eq!(
        drained(&mut consumer),
        vec![struck(60, 100.0 / 127.0), Command::NoteOff { midi: 60 }]
    );
    assert_eq!(listener.poll(), None);
}

#[test]
fn polling_hands_out_one_event_at_a_time() {
    let (mut producer, mut listener) = MidiListener::open(String::new());
    assert_eq!(listener.poll(), None);
    on_midi_message(MIDDLE_C_ON, &mut producer);
    on_midi_message(MIDDLE_C_OFF, &mut producer);
    assert_eq!(
        listener.poll(),
        Some(MidiEvent::NoteOn { note: 60, velocity: DataByte { data: 100 } })
    );
    assert_eq!(listener.poll(), Some(MidiEvent::NoteOff { note: 60 }));
    assert_eq!(listener.poll(), None);
}

#[test]
fn a_full_event_ring_drops_rather_than_blocks() {
    let (mut producer, mut listener) = MidiListener::open(String::new());
    for index in 0..EVENT_QUEUE_CAPACITY + 3 {
        assert_eq!(on_midi_message(MIDDLE_C_OFF, &mut producer), index < EVENT_QUEUE_CAPACITY);
    }
    let mut waiting = 0;
    while listener.poll().is_some() {
        waiting += 1;
    }
    assert_eq!(waiting, EVENT_QUEUE_CAPACITY);
    assert!(on_midi_message(MIDDLE_C_OFF, &mut producer));
}

#[test]
fn one_tick_plays_a_bounded_number_of_events() {
    let (mut producer, mut listener) = MidiListener::open(String::new());
    let (mut session, mut consumer) = AudioSession::open(rate());
    for _ in 0..MAX_EVENTS_PER_TICK {
        on_midi_message(MIDDLE_C_OFF, &mut producer);
    }
    drain_midi(&mut session, &mut listener);
    assert_eq!(listener.poll(), None);
    assert_eq!(drained(&mut consumer).len(), COMMAND_QUEUE_CAPACITY);
}

#[test]
fn what_was_seen_to_arrive_is_taken_before_a_poll_finds_nothing() {
    let (mut producer, mut listener) = MidiListener::open(String::from("Digital Piano"));
    let (mut session, mut consumer) = AudioSession::open(rate());
    for note in 60..63u8 {
        assert!(on_midi_message(&[0x80, note, 0], &mut producer));
    }
    assert_eq!(listener.poll(), Some(MidiEvent::NoteOff { note: 60 }));
    drain_midi(&mut session, &mut listener);
    assert_eq!(listener.poll(), None);
    let batch = drained(&mut consumer);
    assert_eq!(batch, [Command::NoteOff { midi: 61 }, Command::NoteOff { midi: 62 }]);
    assert!(on_midi_message(&[0x80, 63, 0], &mut producer));
    assert_eq!(listener.poll(), Some(MidiEvent::NoteOff { note: 63 }), "it looks afresh");
}
