//! What the parameter studio can ask of a live session.
use crate::binary32::Binary32;
use crate::commands::Command;
use crate::hammer::HammerConfig;
use crate::session;
use crate::session::AudioSession;
use crate::soundboard::SoundboardMode;
use vstd::prelude::*;

verus! {

/// Studio commands carried out per tick of the control loop: a browser reload
/// floods well over a thousand at once.
pub const MAX_COMMANDS_PER_TICK: usize = 256;

/// One change made in the studio, or one note played from it.
#[derive(Debug, Clone, Copy, PartialEq, Eq, Structural)]
pub enum StudioCommand {
    /// Strike a key.
    NoteOn {
        /// MIDI note number.
        midi: u8,
        /// Strike strength.
        velocity: Binary32,
    },
    /// Release a key.
    NoteOff {
        /// MIDI note number.
        midi: u8,
    },
    /// Silence everything.
    AllNotesOff,
    /// Move the sustain pedal.
    SustainPedal {
        /// Whether it is down.
        down: bool,
    },
    /// Set one string's damping.
    SetStringDamping {
        /// MIDI note number of the string's key.
        midi: u8,
        /// Which of its strings.
        string_index: u8,
        /// New damping.
        damping: Binary32,
    },
    /// Set one string's sustain.
    SetStringSustain {
        /// MIDI note number of the string's key.
        midi: u8,
        /// Which of its strings.
        string_index: u8,
        /// New sustain.
        sustain: Binary32,
    },
    /// Set one string's inharmonicity.
    SetStringInharmonicity {
        /// MIDI note number of the string's key.
        midi: u8,
        /// Which of its strings.
        string_index: u8,
        /// New inharmonicity.
        inharmonicity: Binary32,
    },
    /// Tune one string away from its key.
    SetStringDetune {
        /// MIDI note number of the string's key.
        midi: u8,
        /// Which of its strings.
        string_index: u8,
        /// How far, in cents.
        cents: Binary32,
    },
    /// Reseed one string's noise.
    SetStringSeed {
        /// MIDI note number of the string's key.
        midi: u8,
        /// Which of its strings.
        string_index: u8,
        /// New seed.
        seed: u32,
    },
    /// Change one string's hammer.
    SetStringHammer {
        /// MIDI note number of the string's key.
        midi: u8,
        /// Which of its strings.
        string_index: u8,
        /// New hammer.
        hammer: HammerConfig,
    },
    /// Rebuild one soundboard mode.
    SetSoundboardMode {
        /// Which mode.
        index: usize,
        /// Its new parameters.
        mode: SoundboardMode,
    },
    /// Set the coupling within every voice.
    SetLocalCouplingGain {
        /// New gain.
        gain: Binary32,
    },
    /// Set the coupling of every voice to the bridge.
    SetGlobalCouplingGain {
        /// New gain.
        gain: Binary32,
    },
}

/// What a studio command means to the engine.
pub open spec fn meaning(command: StudioCommand) -> Command {
    match command {
        StudioCommand::NoteOn { midi, velocity } => Command::NoteOn { midi, velocity },
        StudioCommand::NoteOff { midi } => Command::NoteOff { midi },
        StudioCommand::AllNotesOff => Command::AllNotesOff,
        StudioCommand::SustainPedal { down } => Command::SustainPedal { down },
        StudioCommand::SetStringDamping { midi, string_index, damping } =>
            Command::SetStringDamping { midi, string_index, damping },
        StudioCommand::SetStringSustain { midi, string_index, sustain } =>
            Command::SetStringSustain { midi, string_index, sustain },
        StudioCommand::SetStringInharmonicity { midi, string_index, inharmonicity } =>
            Command::SetStringInharmonicity { midi, string_index, inharmonicity },
        StudioCommand::SetStringDetune { midi, string_index, cents } =>
            Command::SetStringDetune { midi, string_index, cents },
        StudioCommand::SetStringSeed { midi, string_index, seed } => Command::SetStringSeed {
            midi,
            string_index,
            seed,
        },
        StudioCommand::SetStringHammer { midi, string_index, hammer } =>
            Command::SetStringHammer { midi, string_index, hammer },
        StudioCommand::SetSoundboardMode { index, mode } => Command::SetSoundboardMode {
            index,
            mode,
        },
        StudioCommand::SetLocalCouplingGain { gain } => Command::SetLocalCouplingGain { gain },
        StudioCommand::SetGlobalCouplingGain { gain } => Command::SetGlobalCouplingGain { gain },
    }
}

/// Translates one studio command into the matching session call. Returns
/// whether it was queued.
pub fn apply_command(session: &mut AudioSession, command: StudioCommand) -> (queued: bool)
    ensures
        session::sends(*old(session), *final(session), meaning(command), queued),
{
    match command {
        StudioCommand::NoteOn { midi, velocity } => session.note_on(midi, velocity),
        StudioCommand::NoteOff { midi } => session.note_off(midi),
        StudioCommand::AllNotesOff => session.all_notes_off(),
        StudioCommand::SustainPedal { down } => session.set_sustain_pedal(down),
        StudioCommand::SetStringDamping { midi, string_index, damping } =>
            session.set_string_damping(midi, string_index, damping),
        StudioCommand::SetStringSustain { midi, string_index, sustain } =>
            session.set_string_sustain(midi, string_index, sustain),
        StudioCommand::SetStringInharmonicity { midi, string_index, inharmonicity } =>
            session.set_string_inharmonicity(midi, string_index, inharmonicity),
        StudioCommand::SetStringDetune { midi, string_index, cents } =>
            session.set_string_detune(midi, string_index, cents),
        StudioCommand::SetStringSeed { midi, string_index, seed } => session.set_string_seed(
            midi,
            string_index,
            seed,
        ),
        StudioCommand::SetStringHammer { midi, string_index, hammer } =>
            session.set_string_hammer(midi, string_index, hammer),
        StudioCommand::SetSoundboardMode { index, mode } => session.set_soundboard_mode(
            index,
            mode,
        ),
        StudioCommand::SetLocalCouplingGain { gain } => session.set_local_coupling_gain(gain),
        StudioCommand::SetGlobalCouplingGain { gain } => session.set_global_coupling_gain(gain),
    }
}

/// What a run of studio commands means, in order.
pub open spec fn meanings(commands: Seq<StudioCommand>) -> Seq<Command> {
    Seq::new(commands.len(), |i: int| meaning(commands[i]))
}

/// Applies every command in order, and returns how many were queued. Nothing is
/// dropped that there was room for.
pub fn apply_commands(session: &mut AudioSession, commands: &Vec<StudioCommand>) -> (queued: usize)
    ensures
        session::sends_all(*old(session), *final(session), meanings(commands@)),
        final(session).sent() == old(session).sent() + queued,
{
    let mut queued: usize = 0;
    let mut index: usize = 0;
    proof {
        assert(meanings(commands@.take(0)) =~= Seq::empty());
        session::lemma_sends_none(*session);
    }
    while index < commands.len()
        invariant
            session::sends_all(*old(session), *session, meanings(commands@.take(index as int))),
            session.sent() == old(session).sent() + queued,
            queued <= index <= commands@.len(),
        decreases commands@.len() - index,
    {
        let ghost before = *session;
        let sent = apply_command(session, commands[index]);
        proof {
            lemma_meanings(commands@, index as int);
            session::lemma_sends_one_more(
                *old(session),
                before,
                *session,
                meanings(commands@.take(index as int)),
                meaning(commands@[index as int]),
                sent,
            );
        }
        if sent {
            queued = queued + 1;
        }
        index = index + 1;
    }
    assert(commands@.take(index as int) =~= commands@);
    queued
}

/// One more command means one thing more.
proof fn lemma_meanings(commands: Seq<StudioCommand>, index: int)
    requires
        0 <= index < commands.len(),
    ensures
        meanings(commands.take(index + 1)) == meanings(commands.take(index)).push(
            meaning(commands[index]),
        ),
{
    assert(meanings(commands.take(index + 1)) =~= meanings(commands.take(index)).push(
        meaning(commands[index]),
    ));
}

/// Applies the commands that wait, in order and as many as one round of the control
/// loop takes, and returns how many those were. Nothing is dropped that there was
/// room for.
pub fn drain_studio_commands(session: &mut AudioSession, waiting: &[StudioCommand]) -> (taken: usize)
    ensures
        taken == if waiting@.len() < MAX_COMMANDS_PER_TICK {
            waiting@.len() as int
        } else {
            MAX_COMMANDS_PER_TICK as int
        },
        session::sends_all(*old(session), *final(session), meanings(waiting@.take(taken as int))),
{
    let mut taken: usize = 0;
    proof {
        assert(meanings(waiting@.take(0)) =~= Seq::empty());
        session::lemma_sends_none(*session);
    }
    while taken < waiting.len() && taken < MAX_COMMANDS_PER_TICK
        invariant
            taken <= waiting@.len(),
            taken <= MAX_COMMANDS_PER_TICK,
            session::sends_all(*old(session), *session, meanings(waiting@.take(taken as int))),
        decreases waiting@.len() - taken,
    {
        let ghost before = *session;
        let queued = apply_command(session, waiting[taken]);
        proof {
            lemma_meanings(waiting@, taken as int);
            session::lemma_sends_one_more(
                *old(session),
                before,
                *session,
                meanings(waiting@.take(taken as int)),
                meaning(waiting@[taken as int]),
                queued,
            );
        }
        taken = taken + 1;
    }
    taken
}

} // verus!
