use piano::binary32::Binary32;
use piano::commands::Command;
use piano::engine::MAX_COMMANDS_PER_CALLBACK;
use piano::hammer::HammerConfig;
use piano::session::{AudioSession, COMMAND_QUEUE_CAPACITY};
use piano::soundboard::mode;
use piano::studio::{
    apply_command, apply_commands, drain_studio_commands, StudioCommand, MAX_COMMANDS_PER_TICK,
};
use piano::units::SampleRate;

fn bits(value: f32) -> Binary32 {
    Binary32::from_bits(value.to_bits())
}

fn rate() -> SampleRate {
    SampleRate::new(bits(44_100.0)).expect("44.1 kHz is valid")
}

/// As many waiting commands as one callback takes.
fn drained(consumer: &mut rtrb::Consumer<Command>) -> Vec<Command> {
    let mut batch = Vec::new();
    while batch.len() < MAX_COMMANDS_PER_CALLBACK {
        match consumer.pop() {
            Ok(command) => batch.push(command),
            Err(_) => break,
        }
    }
    batch
}

#[test]
fn every_call_queues_its_command_in_order() {
    let (mut session, mut consumer) = AudioSession::open(rate());
    let loud = mode(0x42a0_0000, 0x3f80_0000, 0x3f80_0000);
    let hammer = HammerConfig::default();
    assert!(session.note_on(60, bits(0.5)));
    assert!(session.all_notes_off());
    assert!(session.note_off(60));
    assert!(session.set_sustain_pedal(true));
    assert!(session.set_damping(bits(0.1)));
    assert!(session.set_sustain(bits(0.2)));
    assert!(session.set_soundboard_mode(3, loud));
    assert!(session.set_soundboard_mix_gain(bits(0.3)));
    assert!(session.set_master_gain(bits(0.4)));
    assert!(session.set_velocity_curve(bits(0.5)));
    assert!(session.set_local_coupling_gain(bits(0.6)));
    assert!(session.set_global_coupling_gain(bits(0.7)));
    assert!(session.set_string_damping(61, 0, bits(0.8)));
    assert!(session.set_string_sustain(62, 1, bits(0.9)));
    assert!(session.set_string_inharmonicity(63, 2, bits(0.01)));
    assert!(session.set_string_detune(64, 0, bits(-3.0)));
    assert!(session.set_string_seed(65, 1, 99));
    assert!(session.set_string_hammer(66, 2, hammer));
    assert_eq!(session.sample_rate(), rate());
    assert_eq!(
        drained(&mut consumer),
        vec![
            Command::NoteOn { midi: 60, velocity: bits(0.5) },
            Command::AllNotesOff,
            Command::NoteOff { midi: 60 },
            Command::SustainPedal { down: true },
            Command::SetDamping { damping: bits(0.1) },
            Command::SetSustain { sustain: bits(0.2) },
            Command::SetSoundboardMode { index: 3, mode: loud },
            Command::SetSoundboardMixGain { gain: bits(0.3) },
            Command::SetMasterGain { gain: bits(0.4) },
            Command::SetVelocityCurve { exponent: bits(0.5) },
            Command::SetLocalCouplingGain { gain: bits(0.6) },
            Command::SetGlobalCouplingGain { gain: bits(0.7) },
            Command::SetStringDamping { midi: 61, string_index: 0, damping: bits(0.8) },
            Command::SetStringSustain { midi: 62, string_index: 1, sustain: bits(0.9) },
            Command::SetStringInharmonicity { midi: 63, string_index: 2, inharmonicity: bits(0.01) },
            Command::SetStringDetune { midi: 64, string_index: 0, cents: bits(-3.0) },
            Command::SetStringSeed { midi: 65, string_index: 1, seed: 99 },
            Command::SetStringHammer { midi: 66, string_index: 2, hammer },
        ]
    );
}

#[test]
fn a_full_queue_drops_rather_than_blocks() {
    let (mut session, mut consumer) = AudioSession::open(rate());
    for index in 0..COMMAND_QUEUE_CAPACITY + 5 {
        assert_eq!(session.note_off(index as u8), index < COMMAND_QUEUE_CAPACITY);
    }
    let first = drained(&mut consumer);
    assert_eq!(first.len(), MAX_COMMANDS_PER_CALLBACK);
    for (index, command) in first.iter().enumerate() {
        assert_eq!(*command, Command::NoteOff { midi: index as u8 });
    }
    assert!(session.all_notes_off(), "draining made room again");
    let second = drained(&mut consumer);
    assert_eq!(second[0], Command::NoteOff { midi: 64 });
}

#[test]
fn the_studio_translates_every_command() {
    let hammer = HammerConfig::default();
    let loud = mode(0x42a0_0000, 0x3f80_0000, 0x3f80_0000);
    let asked = vec![
        StudioCommand::NoteOn { midi: 1, velocity: bits(0.1) },
        StudioCommand::NoteOff { midi: 2 },
        StudioCommand::AllNotesOff,
        StudioCommand::SustainPedal { down: false },
        StudioCommand::SetStringDamping { midi: 3, string_index: 1, damping: bits(0.2) },
        StudioCommand::SetStringSustain { midi: 4, string_index: 2, sustain: bits(0.3) },
        StudioCommand::SetStringInharmonicity { midi: 5, string_index: 0, inharmonicity: bits(0.4) },
        StudioCommand::SetStringDetune { midi: 6, string_index: 1, cents: bits(0.5) },
        StudioCommand::SetStringSeed { midi: 7, string_index: 2, seed: 8 },
        StudioCommand::SetStringHammer { midi: 9, string_index: 0, hammer },
        StudioCommand::SetSoundboardMode { index: 7, mode: loud },
        StudioCommand::SetLocalCouplingGain { gain: bits(0.6) },
        StudioCommand::SetGlobalCouplingGain { gain: bits(0.7) },
    ];
    let meant = vec![
        Command::NoteOn { midi: 1, velocity: bits(0.1) },
        Command::NoteOff { midi: 2 },
        Command::AllNotesOff,
        Command::SustainPedal { down: false },
        Command::SetStringDamping { midi: 3, string_index: 1, damping: bits(0.2) },
        Command::SetStringSustain { midi: 4, string_index: 2, sustain: bits(0.3) },
        Command::SetStringInharmonicity { midi: 5, string_index: 0, inharmonicity: bits(0.4) },
        Command::SetStringDetune { midi: 6, string_index: 1, cents: bits(0.5) },
        Command::SetStringSeed { midi: 7, string_index: 2, seed: 8 },
        Command::SetStringHammer { midi: 9, string_index: 0, hammer },
        Command::SetSoundboardMode { index: 7, mode: loud },
        Command::SetLocalCouplingGain { gain: bits(0.6) },
        Command::SetGlobalCouplingGain { gain: bits(0.7) },
    ];
    let (mut session, mut consumer) = AudioSession::open(rate());
    assert_eq!(apply_commands(&mut session, &asked), asked.len());
    assert_eq!(drained(&mut consumer), meant);
    for (asked, meant) in asked.into_iter().zip(meant) {
        assert!(apply_command(&mut session, asked));
        assert_eq!(drained(&mut consumer), vec![meant]);
    }
}

#[test]
fn a_flood_of_studio_commands_fills_the_queue_and_no_more() {
    let (mut session, _consumer) = AudioSession::open(rate());
    let flood = vec![StudioCommand::AllNotesOff; COMMAND_QUEUE_CAPACITY + 40];
    assert_eq!(apply_commands(&mut session, &flood), COMMAND_QUEUE_CAPACITY);
    assert_eq!(apply_commands(&mut session, &flood), 0);
}

#[test]
fn one_round_takes_only_so_many_studio_commands() {
    let (mut session, mut consumer) = AudioSession::open(rate());
    let waiting: Vec<StudioCommand> =
        (0..300u32).map(|index| StudioCommand::NoteOff { midi: (index % 88) as u8 }).collect();
    let taken = drain_studio_commands(&mut session, &waiting);
    assert_eq!(taken, MAX_COMMANDS_PER_TICK);
    let mut received = Vec::new();
    while received.len() < taken {
        let batch = drained(&mut consumer);
        assert!(!batch.is_empty());
        received.extend(batch);
    }
    for (index, command) in received.iter().enumerate() {
        assert_eq!(*command, Command::NoteOff { midi: (index % 88) as u8 });
    }
    assert_eq!(drain_studio_commands(&mut session, &waiting[taken..]), 44);
    assert_eq!(drained(&mut consumer)[0], Command::NoteOff { midi: (256 % 88) as u8 });
    assert_eq!(drain_studio_commands(&mut session, &[]), 0);
}

#[test]
fn what_gets_through_a_full_queue_keeps_its_order() {
    let (mut session, mut consumer) = AudioSession::open(rate());
    let asked: Vec<StudioCommand> =
        (0..COMMAND_QUEUE_CAPACITY + 10).map(|index| StudioCommand::NoteOff { midi: index as u8 })
            .collect();
    assert_eq!(apply_commands(&mut session, &asked), COMMAND_QUEUE_CAPACITY);
    assert_eq!(drained(&mut consumer).len(), 64);
    let late = [StudioCommand::AllNotesOff, StudioCommand::SustainPedal { down: true }];
    assert_eq!(drain_studio_commands(&mut session, &late), 2);
    let mut received = Vec::new();
    while received.len() < COMMAND_QUEUE_CAPACITY - 64 + 2 {
        received.extend(drained(&mut consumer));
    }
    for (index, command) in received[..COMMAND_QUEUE_CAPACITY - 64].iter().enumerate() {
        assert_eq!(*command, Command::NoteOff { midi: (index + 64) as u8 });
    }
    let last = &received[COMMAND_QUEUE_CAPACITY - 64..];
    assert_eq!(*last, [Command::AllNotesOff, Command::SustainPedal { down: true }]);
}
