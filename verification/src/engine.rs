//! The voice engine: one group of strings for every key, driven by commands.
//!
//! The engine is what decides. It takes the commands of a control thread, keeps
//! every voice's damper, level and voicing, the sustain pedal, the soundboard and
//! the output gains, and tells the renderer after each command what has to be
//! done to the samples. It also tells the renderer which voices it may skip.
use crate::binary32::{Binary32, ONE_BITS};
use crate::commands::Command;
use crate::math;
use crate::params;
use crate::params::{PianoKey, KEY_COUNT, LOWEST_PIANO_KEY};
use crate::soundboard;
use crate::soundboard::{Soundboard, SoundboardMode};
use crate::string;
use crate::string::PluckedString;
use crate::unison;
use crate::unison::UnisonGroup;
use crate::velocity_curve;
use vstd::prelude::*;

verus! {

/// Commands drained per callback: a bound on the drain even if the other end
/// floods the ring faster than the audio thread reads it.
pub const MAX_COMMANDS_PER_CALLBACK: usize = 64;

/// How many samples the bridge bus accumulates before every voice reads it back.
pub const BRIDGE_BLOCK_SAMPLES: usize = 128;

/// How much of the soundboard is mixed into the output at first, 0.5.
pub const SOUNDBOARD_MIX_GAIN_BITS: u32 = 0x3f00_0000;

/// The highest soundboard mix gain, 2.
pub const MAX_SOUNDBOARD_MIX_GAIN_BITS: u32 = 0x4000_0000;

/// The highest master gain, 4.
pub const MAX_MASTER_GAIN_BITS: u32 = 0x4080_0000;

/// One key's permanent voice.
#[derive(Debug, Clone, Copy, PartialEq, Eq, Structural)]
pub struct Voice {
    /// The key's strings; none where the sample rate cannot represent them.
    pub strings: Option<UnisonGroup>,
    /// Whether a finger is holding the key, whatever the pedal does.
    pub held: bool,
    /// Whether the key was released while the pedal was down: the voice keeps
    /// ringing, and is released for real when the pedal comes up.
    pub pending_pedal_release: bool,
}

/// The whole of what the engine keeps.
#[verifier::ext_equal]
pub struct EngineState {
    /// One voice per key, the lowest first.
    pub voices: Seq<Voice>,
    /// Whether the sustain pedal is down.
    pub pedal_down: bool,
    /// The soundboard's modes.
    pub modes: Seq<SoundboardMode>,
    /// How much of the soundboard is mixed into the output.
    pub soundboard_mix_gain: Binary32,
    /// The gain before the output limiter.
    pub master_gain: Binary32,
    /// The exponent strike velocities are warped by.
    pub velocity_exponent: Binary32,
}

/// What the renderer has to do after a command.
#[derive(Debug, Clone, Copy, PartialEq, Eq, Structural)]
pub enum Action {
    /// Nothing.
    Nothing,
    /// Clear the strings of one key and write the excitation of a strike.
    Strike {
        /// Which key, from zero.
        key: usize,
        /// The strike's velocity.
        velocity: Binary32,
    },
    /// Clear the strings of every key.
    Silence,
    /// Have the filters of every loop follow their strings.
    RetuneAll,
    /// Have the filters of one loop follow its string.
    Retune {
        /// Which key, from zero.
        key: usize,
        /// Which of its strings, from zero.
        string: usize,
    },
    /// Build one resonator of the soundboard anew.
    RebuildMode {
        /// Which mode.
        index: usize,
    },
}

/// The number of a key on the keyboard, where `midi` names one.
pub open spec fn key_of(midi: u8) -> Option<int> {
    if params::on_keyboard(midi as int) {
        Some(midi - LOWEST_PIANO_KEY)
    } else {
        None
    }
}

/// The MIDI note number of the key a command is about, if it is about one key.
pub open spec fn subject(command: Command) -> Option<u8> {
    match command {
        Command::NoteOn { midi, .. } => Some(midi),
        Command::NoteOff { midi } => Some(midi),
        Command::SetStringDamping { midi, .. } => Some(midi),
        Command::SetStringSustain { midi, .. } => Some(midi),
        Command::SetStringInharmonicity { midi, .. } => Some(midi),
        Command::SetStringDetune { midi, .. } => Some(midi),
        Command::SetStringSeed { midi, .. } => Some(midi),
        Command::SetStringHammer { midi, .. } => Some(midi),
        _ => None,
    }
}

/// A command that is about one key is about the key `index`.
pub open spec fn reaches(command: Command, index: int) -> bool {
    match subject(command) {
        Some(midi) => key_of(midi) == Some(index),
        None => true,
    }
}

/// Which strings of the voices it reaches a command retunes the loops of, if it
/// retunes any: one string, or all of them.
pub open spec fn tunes(command: Command) -> Option<Option<int>> {
    match command {
        Command::SetDamping { .. } => Some(None),
        Command::SetStringDamping { string_index, .. } => Some(Some(string_index as int)),
        Command::SetStringInharmonicity { string_index, .. } => Some(Some(string_index as int)),
        Command::SetStringDetune { string_index, .. } => Some(Some(string_index as int)),
        _ => None,
    }
}

impl Voice {
    /// The voice, with `change` made to its strings.
    pub open spec fn with_strings(self, change: spec_fn(UnisonGroup) -> UnisonGroup) -> Self {
        Voice {
            strings: match self.strings {
                Some(strings) => Some(change(strings)),
                None => None,
            },
            ..self
        }
    }

    /// The voice struck by a finger: held by it again, whatever the pedal was
    /// holding before.
    pub open spec fn struck(self, velocity: Binary32) -> Self {
        Voice { held: true, pending_pedal_release: false, ..self }.with_strings(
            |group: UnisonGroup| group.each(|s: PluckedString| s.plucked(velocity)),
        )
    }

    /// The voice with its dampers down.
    pub open spec fn released(self) -> Self {
        self.with_strings(|group: UnisonGroup| group.each(|s: PluckedString| s.released()))
    }

    /// The voice with its dampers up.
    pub open spec fn lifted(self) -> Self {
        self.with_strings(|group: UnisonGroup| group.each(|s: PluckedString| s.lifted()))
    }

    /// The voice let go of by a finger: released, or held by the pedal.
    pub open spec fn let_go(self, pedal_down: bool) -> Self {
        if pedal_down {
            Voice { held: false, pending_pedal_release: true, ..self }
        } else {
            Voice { held: false, ..self }.released()
        }
    }

    /// The voice after the pedal moved: nothing where a finger holds it, damper
    /// up when the pedal goes down, and down again when it comes up.
    pub open spec fn pedalled(self, was_down: bool, down: bool) -> Self {
        if self.held || was_down == down {
            self
        } else if down {
            self.lifted()
        } else {
            Voice { pending_pedal_release: false, ..self }.released()
        }
    }

    /// The voice silenced, dampers down.
    pub open spec fn silenced(self) -> Self {
        Voice { held: false, pending_pedal_release: false, ..self }.with_strings(
            |group: UnisonGroup|
                group.each(|s: PluckedString| s.plucked(Binary32::from_bits(0)).released()),
        )
    }

    /// The voice after a command that reaches it.
    pub open spec fn after(self, pedal_down: bool, command: Command) -> Self {
        match command {
            Command::NoteOn { velocity, .. } => self.struck(velocity),
            Command::NoteOff { .. } => self.let_go(pedal_down),
            Command::AllNotesOff => self.silenced(),
            Command::SustainPedal { down } => self.pedalled(pedal_down, down),
            Command::SetDamping { damping } => self.with_strings(
                |group: UnisonGroup| group.each(|s: PluckedString| s.damped_by(damping)),
            ),
            Command::SetSustain { sustain } => self.with_strings(
                |group: UnisonGroup| group.each(|s: PluckedString| s.sustained_by(sustain)),
            ),
            Command::SetLocalCouplingGain { gain } => self.with_strings(
                |group: UnisonGroup|
                    UnisonGroup { local_coupling_gain: string::normalised(gain), ..group },
            ),
            Command::SetGlobalCouplingGain { gain } => self.with_strings(
                |group: UnisonGroup|
                    UnisonGroup { global_coupling_gain: string::normalised(gain), ..group },
            ),
            Command::SetStringDamping { string_index, damping, .. } => self.with_strings(
                |group: UnisonGroup|
                    group.only(string_index as int, |s: PluckedString| s.damped_by(damping)),
            ),
            Command::SetStringSustain { string_index, sustain, .. } => self.with_strings(
                |group: UnisonGroup|
                    group.only(string_index as int, |s: PluckedString| s.sustained_by(sustain)),
            ),
            Command::SetStringInharmonicity { string_index, inharmonicity, .. } =>
                self.with_strings(
                |group: UnisonGroup|
                    group.only(
                        string_index as int,
                        |s: PluckedString| s.stiffened_by(inharmonicity),
                    ),
            ),
            Command::SetStringSeed { string_index, seed, .. } => self.with_strings(
                |group: UnisonGroup|
                    group.only(
                        string_index as int,
                        |s: PluckedString| PluckedString { seed, ..s },
                    ),
            ),
            Command::SetStringHammer { string_index, hammer, .. } => self.with_strings(
                |group: UnisonGroup|
                    group.only(
                        string_index as int,
                        |s: PluckedString| PluckedString { hammer, ..s },
                    ),
            ),
            Command::SetStringDetune { .. } => self,
            Command::SetSoundboardMode { .. } => self,
            Command::SetSoundboardMixGain { .. } => self,
            Command::SetMasterGain { .. } => self,
            Command::SetVelocityCurve { .. } => self,
        }
    }

    /// `settled` is the voice after a command that reaches it, before any loop is
    /// retuned: `detune` moves the frequency of a string that is detuned.
    pub open spec fn settles<D: Fn(Binary32, Binary32) -> Binary32>(
        self,
        pedal_down: bool,
        command: Command,
        detune: D,
        settled: Self,
    ) -> bool {
        match (command, self.strings) {
            (Command::SetStringDetune { string_index, cents, .. }, Some(group)) => exists|
                moved: Binary32,
            | #[trigger]
                detune.ensures((group.base.value(), cents), moved) && settled == Voice {
                    strings: Some(group.moved_to(string_index as int, moved)),
                    ..self
                },
            _ => settled == self.after(pedal_down, command),
        }
    }

    /// `after` is the voice after a command that reaches it, with the loops retuned
    /// that the command moves.
    pub open spec fn becomes<
        D: Fn(Binary32, Binary32) -> Binary32,
        R: Fn(PluckedString) -> Binary32,
    >(self, pedal_down: bool, command: Command, detune: D, retuned: R, after: Self) -> bool {
        match (tunes(command), self.strings) {
            (Some(chosen), Some(_)) => exists|settled: Self|
                {
                    &&& #[trigger] self.settles(pedal_down, command, detune, settled)
                    &&& after == Voice { strings: after.strings, ..settled }
                    &&& after.strings matches Some(group) && unison::is_tuned(
                        settled.strings->0,
                        chosen,
                        retuned,
                        group,
                    )
                },
            _ => after == self.after(pedal_down, command),
        }
    }

    /// The voice's strings are well formed.
    pub open spec fn wf(self) -> bool {
        self.strings matches Some(strings) ==> strings.wf()
    }

    /// The voice can be skipped: it makes no sound, and its dampers keep it from
    /// picking any up. A voice that is silent but undamped has to be rendered,
    /// or it could never be woken by the others.
    pub open spec fn inert(self) -> bool {
        match self.strings {
            Some(strings) => strings.silent() && !strings.receptive(),
            None => true,
        }
    }

    /// Carries out a command that reaches this voice.
    fn step<D: Fn(Binary32, Binary32) -> Binary32, R: Fn(PluckedString) -> Binary32>(
        &mut self,
        pedal_down: bool,
        command: Command,
        detune: &D,
        retuned: &R,
    )
        requires
            old(self).wf(),
            forall|hertz: Binary32, cents: Binary32| detune.requires((hertz, cents)),
            forall|string: PluckedString| retuned.requires((string,)),
        ensures
            old(self).becomes(pedal_down, command, *detune, *retuned, *final(self)),
            final(self).wf(),
    {
        if is_tuning(command) {
            self.tune(pedal_down, command, detune, retuned);
        } else {
            self.step_plainly(pedal_down, command);
        }
    }

    /// Carries out a command that reaches this voice and retunes a loop.
    fn tune<D: Fn(Binary32, Binary32) -> Binary32, R: Fn(PluckedString) -> Binary32>(
        &mut self,
        pedal_down: bool,
        command: Command,
        detune: &D,
        retuned: &R,
    )
        requires
            tunes(command) is Some,
            old(self).wf(),
            forall|hertz: Binary32, cents: Binary32| detune.requires((hertz, cents)),
            forall|string: PluckedString| retuned.requires((string,)),
        ensures
            old(self).becomes(pedal_down, command, *detune, *retuned, *final(self)),
            final(self).wf(),
    {
        let ghost before = *self;
        let ghost mut settled = self.after(pedal_down, command);
        if let Some(strings) = &mut self.strings {
            match command {
                Command::SetDamping { damping } => {
                    strings.set_damping(damping, retuned);
                },
                Command::SetStringDamping { string_index, damping, .. } => {
                    strings.set_string_damping(string_index as usize, damping, retuned);
                },
                Command::SetStringInharmonicity { string_index, inharmonicity, .. } => {
                    strings.set_string_inharmonicity(
                        string_index as usize,
                        inharmonicity,
                        retuned,
                    );
                },
                Command::SetStringDetune { string_index, cents, .. } => {
                    strings.set_string_detune(string_index as usize, cents, detune, retuned);
                    proof {
                        let group = before.strings->0;
                        let moved = choose|moved: Binary32|
                            {
                                &&& #[trigger] detune.ensures((group.base.value(), cents), moved)
                                &&& unison::is_tuned(
                                    group.moved_to(string_index as int, moved),
                                    Some(string_index as int),
                                    *retuned,
                                    *strings,
                                )
                            };
                        settled =
                        Voice {
                            strings: Some(group.moved_to(string_index as int, moved)),
                            ..before
                        };
                    }
                },
                _ => {},
            }
        }
        assert(before.strings is Some ==> before.settles(pedal_down, command, *detune, settled));
    }

    /// Carries out a command that reaches this voice and retunes nothing.
    fn step_plainly(&mut self, pedal_down: bool, command: Command)
        requires
            tunes(command) is None,
        ensures
            *final(self) == old(self).after(pedal_down, command),
            old(self).wf() ==> final(self).wf(),
    {
        match command {
            Command::NoteOn { velocity, .. } => {
                self.held = true;
                self.pending_pedal_release = false;
                if let Some(strings) = &mut self.strings {
                    strings.mark_struck(velocity);
                }
            },
            Command::NoteOff { .. } => {
                self.held = false;
                if pedal_down {
                    self.pending_pedal_release = true;
                } else if let Some(strings) = &mut self.strings {
                    strings.release();
                }
            },
            Command::AllNotesOff => {
                self.held = false;
                self.pending_pedal_release = false;
                if let Some(strings) = &mut self.strings {
                    strings.mark_struck(Binary32::from_bits(0));
                    strings.release();
                }
            },
            Command::SustainPedal { down } => {
                self.move_pedal(pedal_down, down);
            },
            _ => {
                self.adjust(command);
            },
        }
    }

    /// Follows the pedal.
    fn move_pedal(&mut self, was_down: bool, down: bool)
        ensures
            *final(self) == old(self).pedalled(was_down, down),
            old(self).wf() ==> final(self).wf(),
    {
        if self.held || was_down == down {
            return;
        }
        if down {
            if let Some(strings) = &mut self.strings {
                strings.lift_damper();
            }
        } else {
            self.pending_pedal_release = false;
            if let Some(strings) = &mut self.strings {
                strings.release();
            }
        }
    }

    /// Carries out a command that only changes how the strings are voiced.
    fn adjust(&mut self, command: Command)
        requires
            !(command is NoteOn || command is NoteOff || command is AllNotesOff
                || command is SustainPedal),
            tunes(command) is None,
        ensures
            *final(self) == old(self).after(false, command),
            *final(self) == old(self).after(true, command),
            old(self).wf() ==> final(self).wf(),
    {
        if let Some(strings) = &mut self.strings {
            match command {
                Command::SetSustain { sustain } => {
                    strings.set_sustain(sustain);
                },
                Command::SetLocalCouplingGain { gain } => {
                    strings.set_local_coupling_gain(gain);
                },
                Command::SetGlobalCouplingGain { gain } => {
                    strings.set_global_coupling_gain(gain);
                },
                Command::SetStringSustain { string_index, sustain, .. } => {
                    strings.set_string_sustain(string_index as usize, sustain);
                },
                Command::SetStringSeed { string_index, seed, .. } => {
                    strings.set_string_seed(string_index as usize, seed);
                },
                Command::SetStringHammer { string_index, hammer, .. } => {
                    strings.set_string_hammer(string_index as usize, hammer);
                },
                _ => {},
            }
        }
    }
}

impl EngineState {
    /// There is a voice for every key, all well formed, and every gain is in
    /// its range.
    pub open spec fn wf(self) -> bool {
        &&& self.voices.len() == KEY_COUNT
        &&& forall|i: int| 0 <= i < KEY_COUNT ==> (#[trigger] self.voices[i]).wf()
        &&& self.modes.len() == soundboard::MODE_COUNT
        &&& self.soundboard_mix_gain.within(
            Binary32::from_bits(0),
            Binary32::from_bits(MAX_SOUNDBOARD_MIX_GAIN_BITS),
        )
        &&& self.master_gain.within(
            Binary32::from_bits(0),
            Binary32::from_bits(MAX_MASTER_GAIN_BITS),
        )
        &&& self.velocity_exponent.within(
            Binary32::from_bits(velocity_curve::MIN_VELOCITY_CURVE_EXPONENT_BITS),
            Binary32::from_bits(velocity_curve::MAX_VELOCITY_CURVE_EXPONENT_BITS),
        )
    }

    /// The state after `command`.
    pub open spec fn after(self, command: Command) -> Self {
        EngineState {
            voices: Seq::new(
                self.voices.len(),
                |i: int|
                    if reaches(command, i) {
                        self.voices[i].after(self.pedal_down, command)
                    } else {
                        self.voices[i]
                    },
            ),
            pedal_down: match command {
                Command::SustainPedal { down } => down,
                _ => self.pedal_down,
            },
            modes: match command {
                Command::SetSoundboardMode { index, mode } => if index < soundboard::MODE_COUNT {
                    self.modes.update(index as int, soundboard::sanitized(mode))
                } else {
                    self.modes
                },
                _ => self.modes,
            },
            soundboard_mix_gain: match command {
                Command::SetSoundboardMixGain { gain } => math::bounded(
                    gain,
                    Binary32::from_bits(0),
                    Binary32::from_bits(MAX_SOUNDBOARD_MIX_GAIN_BITS),
                ),
                _ => self.soundboard_mix_gain,
            },
            master_gain: match command {
                Command::SetMasterGain { gain } => math::bounded(
                    gain,
                    Binary32::from_bits(0),
                    Binary32::from_bits(MAX_MASTER_GAIN_BITS),
                ),
                _ => self.master_gain,
            },
            velocity_exponent: match command {
                Command::SetVelocityCurve { exponent } => velocity_curve::curved(exponent),
                _ => self.velocity_exponent,
            },
        }
    }

    /// `after` is the state after `command`, with the loops retuned that the command
    /// moves.
    pub open spec fn becomes<
        D: Fn(Binary32, Binary32) -> Binary32,
        R: Fn(PluckedString) -> Binary32,
    >(self, command: Command, detune: D, retuned: R, after: Self) -> bool {
        &&& after == EngineState { voices: after.voices, ..self.after(command) }
        &&& after.voices.len() == self.voices.len()
        &&& forall|i: int|
            0 <= i < self.voices.len() ==> if reaches(command, i) {
                self.voices[i].becomes(
                    self.pedal_down,
                    command,
                    detune,
                    retuned,
                    #[trigger] after.voices[i],
                )
            } else {
                after.voices[i] == self.voices[i]
            }
    }

    /// `after` is the state after every command of `commands`, in order.
    pub open spec fn becomes_all<
        D: Fn(Binary32, Binary32) -> Binary32,
        R: Fn(PluckedString) -> Binary32,
    >(self, commands: Seq<Command>, detune: D, retuned: R, after: Self) -> bool
        decreases commands.len(),
    {
        if commands.len() == 0 {
            after == self
        } else {
            exists|reached: Self|
                {
                    &&& self.becomes_all(commands.drop_last(), detune, retuned, reached)
                    &&& #[trigger] reached.becomes(commands.last(), detune, retuned, after)
                }
        }
    }

    /// The key `index` has a string `string`.
    pub open spec fn has_string(self, index: int, string: int) -> bool {
        self.voices[index].strings matches Some(strings) && strings.at(string) is Some
    }

    /// What the renderer has to do after `command`.
    pub open spec fn action(self, command: Command) -> Action {
        match command {
            Command::NoteOn { midi, velocity } => match key_of(midi) {
                Some(key) => if self.voices[key].strings is Some {
                    Action::Strike { key: key as usize, velocity: string::normalised(velocity) }
                } else {
                    Action::Nothing
                },
                None => Action::Nothing,
            },
            Command::AllNotesOff => Action::Silence,
            Command::SetDamping { .. } => Action::RetuneAll,
            Command::SetStringDamping { midi, string_index, .. } => self.retune(
                midi,
                string_index,
            ),
            Command::SetStringInharmonicity { midi, string_index, .. } => self.retune(
                midi,
                string_index,
            ),
            Command::SetSoundboardMode { index, .. } => if index < soundboard::MODE_COUNT {
                Action::RebuildMode { index }
            } else {
                Action::Nothing
            },
            _ => Action::Nothing,
        }
    }

    /// Retuning one string, where it exists.
    pub open spec fn retune(self, midi: u8, string: u8) -> Action {
        match key_of(midi) {
            Some(key) => if self.has_string(key, string as int) {
                Action::Retune { key: key as usize, string: string as usize }
            } else {
                Action::Nothing
            },
            None => Action::Nothing,
        }
    }
}

/// `heard` is what the engine makes of `command`: a strike has its velocity warped
/// by the curve of `exponent`, and every other command stays as it is.
pub open spec fn is_heard_as<P: Fn(Binary32, Binary32) -> Binary32>(
    command: Command,
    exponent: Binary32,
    power: P,
    heard: Command,
) -> bool {
    match command {
        Command::NoteOn { midi, velocity } => exists|warped: Binary32| #[trigger]
            velocity_curve::is_warped(velocity, exponent, power, warped) && heard
                == (Command::NoteOn { midi, velocity: warped }),
        _ => heard == command,
    }
}

/// A command that retunes nothing is carried out exactly.
pub proof fn plain_commands_are_exact<
    D: Fn(Binary32, Binary32) -> Binary32,
    R: Fn(PluckedString) -> Binary32,
>(state: EngineState, command: Command, detune: D, retuned: R, after: EngineState)
    requires
        tunes(command) is None,
        state.becomes(command, detune, retuned, after),
    ensures
        after == state.after(command),
{
    assert(after.voices =~= state.after(command).voices);
}

/// A freshly built engine around `groups`.
pub open spec fn fresh(groups: Seq<Option<UnisonGroup>>) -> EngineState {
    EngineState {
        voices: Seq::new(
            groups.len(),
            |i: int| Voice { strings: groups[i], held: false, pending_pedal_release: false },
        ),
        pedal_down: false,
        modes: soundboard::default_modes(),
        soundboard_mix_gain: Binary32::from_bits(SOUNDBOARD_MIX_GAIN_BITS),
        master_gain: Binary32::from_bits(ONE_BITS),
        velocity_exponent: Binary32::from_bits(
            velocity_curve::DEFAULT_VELOCITY_CURVE_EXPONENT_BITS,
        ),
    }
}

/// Owns one voice per key, the pedal, the soundboard's modes and the gains.
#[derive(Debug)]
pub struct Engine {
    voices: Vec<Voice>,
    pedal_down: bool,
    soundboard: Soundboard,
    soundboard_mix_gain: Binary32,
    master_gain: Binary32,
    velocity_exponent: Binary32,
}

impl Engine {
    /// What the engine keeps.
    pub closed spec fn view(&self) -> EngineState {
        EngineState {
            voices: self.voices@,
            pedal_down: self.pedal_down,
            modes: self.soundboard@,
            soundboard_mix_gain: self.soundboard_mix_gain,
            master_gain: self.master_gain,
            velocity_exponent: self.velocity_exponent,
        }
    }

    /// The state is well formed.
    pub closed spec fn wf(&self) -> bool {
        self@.wf() && self.soundboard.wf()
    }

    /// What a well-formed engine keeps is well formed.
    pub proof fn keeps_a_wf_state(&self)
        requires
            self.wf(),
        ensures
            self@.wf(),
    {
    }

    /// Builds the engine around one group of strings per key, the lowest key
    /// first; none where a key cannot be tuned.
    pub fn new(groups: Vec<Option<UnisonGroup>>) -> (engine: Self)
        requires
            groups@.len() == KEY_COUNT,
            forall|i: int|
                0 <= i < KEY_COUNT && (#[trigger] groups@[i]) is Some ==> groups@[i]->0.wf(),
        ensures
            engine.wf(),
            engine@ == fresh(groups@),
    {
        let mut voices: Vec<Voice> = Vec::with_capacity(KEY_COUNT);
        while voices.len() < KEY_COUNT
            invariant
                groups@.len() == KEY_COUNT,
                voices@.len() <= KEY_COUNT,
                forall|i: int|
                    0 <= i < voices@.len() ==> voices@[i] == (Voice {
                        strings: groups@[i],
                        held: false,
                        pending_pedal_release: false,
                    }),
            decreases KEY_COUNT - voices@.len(),
        {
            let strings = groups[voices.len()];
            voices.push(Voice { strings, held: false, pending_pedal_release: false });
        }
        let engine = Engine {
            voices,
            pedal_down: false,
            soundboard: Soundboard::new(),
            soundboard_mix_gain: Binary32::from_bits(SOUNDBOARD_MIX_GAIN_BITS),
            master_gain: Binary32::from_bits(ONE_BITS),
            velocity_exponent: Binary32::from_bits(
                velocity_curve::DEFAULT_VELOCITY_CURVE_EXPONENT_BITS,
            ),
        };
        assert(engine@ =~= fresh(groups@));
        assert forall|i: int| 0 <= i < KEY_COUNT implies (#[trigger] engine@.voices[i]).wf() by {
            assert(engine@.voices[i].strings == groups@[i]);
        }
        engine
    }

    /// Carries out `command`, and says what the renderer has to do about it.
    ///
    /// The velocity of a strike goes through the velocity curve first, for which
    /// `power` raises a number to another. A string that is detuned is moved by
    /// `detune`, and every loop that the command moves is made as long as `retuned`
    /// says. A note that is not on the keyboard, a key whose strings could not be
    /// tuned and a string that a key does not have are ignored: the audio thread has
    /// nobody to report an error to.
    pub fn apply<
        P: Fn(Binary32, Binary32) -> Binary32,
        D: Fn(Binary32, Binary32) -> Binary32,
        R: Fn(PluckedString) -> Binary32,
    >(&mut self, command: Command, power: &P, detune: &D, retuned: &R) -> (action: Action)
        requires
            old(self).wf(),
            forall|base: Binary32, exponent: Binary32| power.requires((base, exponent)),
            forall|hertz: Binary32, cents: Binary32| detune.requires((hertz, cents)),
            forall|string: PluckedString| retuned.requires((string,)),
        ensures
            final(self).wf(),
            exists|heard: Command|
                {
                    &&& #[trigger] is_heard_as(
                        command,
                        old(self)@.velocity_exponent,
                        *power,
                        heard,
                    )
                    &&& old(self)@.becomes(heard, *detune, *retuned, final(self)@)
                    &&& action == old(self)@.action(heard)
                },
    {
        let heard = match command {
            Command::NoteOn { midi, velocity } => Command::NoteOn {
                midi,
                velocity: velocity_curve::warp_velocity(velocity, self.velocity_exponent, power),
            },
            other => other,
        };
        assert(is_heard_as(command, self@.velocity_exponent, *power, heard));
        self.carry_out(heard, detune, retuned)
    }

    /// Carries out `command` as it is.
    fn carry_out<D: Fn(Binary32, Binary32) -> Binary32, R: Fn(PluckedString) -> Binary32>(
        &mut self,
        command: Command,
        detune: &D,
        retuned: &R,
    ) -> (action: Action)
        requires
            old(self).wf(),
            forall|hertz: Binary32, cents: Binary32| detune.requires((hertz, cents)),
            forall|string: PluckedString| retuned.requires((string,)),
        ensures
            final(self).wf(),
            old(self)@.becomes(command, *detune, *retuned, final(self)@),
            action == old(self)@.action(command),
    {
        let action = self.action_for(command);
        let ghost before = self@;
        match subject_of(command) {
            Some(midi) => {
                if let Ok(key) = PianoKey::from_midi(midi) {
                    let index: usize = key.key_index() as usize;
                    let mut voice = self.voices[index];
                    assert(self@.voices[index as int].wf());
                    voice.step(self.pedal_down, command, detune, retuned);
                    self.voices.set(index, voice);
                }
            },
            None => {
                self.step_all(command, detune, retuned);
                self.set_globally(command);
            },
        }
        assert(self@ =~= EngineState { voices: self@.voices, ..before.after(command) });
        action
    }

    /// Carries out what a command says of the pedal, the board and the gains.
    fn set_globally(&mut self, command: Command)
        requires
            old(self).wf(),
        ensures
            final(self).wf(),
            final(self)@ == (EngineState {
                voices: old(self)@.voices,
                ..old(self)@.after(command)
            }),
    {
        match command {
            Command::SustainPedal { down } => {
                self.pedal_down = down;
            },
            Command::SetSoundboardMode { index, mode } => {
                self.soundboard.set_mode(index, mode);
            },
            Command::SetSoundboardMixGain { gain } => {
                self.soundboard_mix_gain =
                math::clamp_or_low(
                    gain,
                    Binary32::from_bits(0),
                    Binary32::from_bits(MAX_SOUNDBOARD_MIX_GAIN_BITS),
                );
            },
            Command::SetMasterGain { gain } => {
                self.master_gain =
                math::clamp_or_low(
                    gain,
                    Binary32::from_bits(0),
                    Binary32::from_bits(MAX_MASTER_GAIN_BITS),
                );
            },
            Command::SetVelocityCurve { exponent } => {
                self.velocity_exponent = velocity_curve::clamp_exponent(exponent);
            },
            _ => {},
        }
        assert(self@ =~= EngineState { voices: old(self)@.voices, ..old(self)@.after(command) });
    }

    /// Carries out a command on every voice.
    fn step_all<D: Fn(Binary32, Binary32) -> Binary32, R: Fn(PluckedString) -> Binary32>(
        &mut self,
        command: Command,
        detune: &D,
        retuned: &R,
    )
        requires
            old(self).wf(),
            subject(command) is None,
            forall|hertz: Binary32, cents: Binary32| detune.requires((hertz, cents)),
            forall|string: PluckedString| retuned.requires((string,)),
        ensures
            final(self).wf(),
            final(self)@ == (EngineState { voices: final(self)@.voices, ..old(self)@ }),
            forall|i: int|
                0 <= i < KEY_COUNT ==> old(self)@.voices[i].becomes(
                    old(self)@.pedal_down,
                    command,
                    *detune,
                    *retuned,
                    #[trigger] final(self)@.voices[i],
                ),
            final(self).soundboard == old(self).soundboard,
    {
        let mut index: usize = 0;
        while index < KEY_COUNT
            invariant
                index <= KEY_COUNT,
                subject(command) is None,
                old(self).wf(),
                self.wf(),
                forall|hertz: Binary32, cents: Binary32| detune.requires((hertz, cents)),
                forall|string: PluckedString| retuned.requires((string,)),
                self.soundboard == old(self).soundboard,
                self@ == (EngineState { voices: self@.voices, ..old(self)@ }),
                forall|i: int|
                    0 <= i < index ==> old(self)@.voices[i].becomes(
                        old(self)@.pedal_down,
                        command,
                        *detune,
                        *retuned,
                        #[trigger] self@.voices[i],
                    ),
                forall|i: int|
                    index <= i < KEY_COUNT ==> #[trigger] self@.voices[i] == old(self)@.voices[i],
            decreases KEY_COUNT - index,
        {
            let mut voice = self.voices[index];
            assert(voice == self@.voices[index as int] && voice.wf());
            voice.step(self.pedal_down, command, detune, retuned);
            self.voices.set(index, voice);
            index = index + 1;
        }
    }

    /// What the renderer has to do about `command`, before it is carried out.
    fn action_for(&self, command: Command) -> (action: Action)
        requires
            self.wf(),
        ensures
            action == self@.action(command),
    {
        match command {
            Command::NoteOn { midi, velocity } => {
                if let Ok(key) = PianoKey::from_midi(midi) {
                    let index: usize = key.key_index() as usize;
                    if self.voices[index].strings.is_some() {
                        return Action::Strike { key: index, velocity: string::normalise(velocity) };
                    }
                }
                Action::Nothing
            },
            Command::AllNotesOff => Action::Silence,
            Command::SetDamping { .. } => Action::RetuneAll,
            Command::SetStringDamping { midi, string_index, .. } => self.retune_action(
                midi,
                string_index,
            ),
            Command::SetStringInharmonicity { midi, string_index, .. } => self.retune_action(
                midi,
                string_index,
            ),
            Command::SetSoundboardMode { index, .. } => {
                if index < soundboard::MODE_COUNT {
                    Action::RebuildMode { index }
                } else {
                    Action::Nothing
                }
            },
            _ => Action::Nothing,
        }
    }

    /// Retuning one string, where it exists.
    fn retune_action(&self, midi: u8, string: u8) -> (action: Action)
        requires
            self.wf(),
        ensures
            action == self@.retune(midi, string),
    {
        if let Ok(key) = PianoKey::from_midi(midi) {
            let index: usize = key.key_index() as usize;
            if let Some(strings) = self.voices[index].strings {
                if strings.string(string as usize).is_some() {
                    return Action::Retune { key: index, string: string as usize };
                }
            }
        }
        Action::Nothing
    }

    /// Releases the voice of `midi`, or leaves it to the sustain pedal.
    pub fn note_off(&mut self, midi: u8)
        requires
            old(self).wf(),
        ensures
            final(self).wf(),
            final(self)@ == old(self)@.after(Command::NoteOff { midi }),
    {
        if let Ok(key) = PianoKey::from_midi(midi) {
            let index: usize = key.key_index() as usize;
            let mut voice = self.voices[index];
            assert(self@.voices[index as int].wf());
            voice.step_plainly(self.pedal_down, Command::NoteOff { midi });
            self.voices.set(index, voice);
        }
        assert(self@ =~= old(self)@.after(Command::NoteOff { midi }));
    }

    /// Sets the sustain pedal's hold state.
    pub fn set_sustain_pedal(&mut self, down: bool)
        requires
            old(self).wf(),
        ensures
            final(self).wf(),
            final(self)@ == old(self)@.after(Command::SustainPedal { down }),
    {
        let command = Command::SustainPedal { down };
        let mut index: usize = 0;
        while index < KEY_COUNT
            invariant
                index <= KEY_COUNT,
                command == (Command::SustainPedal { down }),
                old(self).wf(),
                self.wf(),
                self.soundboard == old(self).soundboard,
                self@ == (EngineState { voices: self@.voices, ..old(self)@ }),
                forall|i: int|
                    0 <= i < index ==> #[trigger] self@.voices[i] == old(self)@.voices[i].after(
                        old(self)@.pedal_down,
                        command,
                    ),
                forall|i: int|
                    index <= i < KEY_COUNT ==> #[trigger] self@.voices[i] == old(self)@.voices[i],
            decreases KEY_COUNT - index,
        {
            let mut voice = self.voices[index];
            assert(voice == self@.voices[index as int] && voice.wf());
            voice.step_plainly(self.pedal_down, command);
            self.voices.set(index, voice);
            index = index + 1;
        }
        self.pedal_down = down;
        assert(self@ =~= old(self)@.after(command));
    }

    /// The strings of key `index`, where it has any.
    pub fn group(&self, index: usize) -> (group: Option<UnisonGroup>)
        requires
            self.wf(),
        ensures
            group == if index < KEY_COUNT {
                self@.voices[index as int].strings
            } else {
                None
            },
            group matches Some(group) ==> group.wf(),
    {
        if index < self.voices.len() {
            assert(self@.voices[index as int].wf());
            self.voices[index].strings
        } else {
            None
        }
    }

    /// Whether the renderer can skip key `index`.
    pub fn is_inert(&self, index: usize) -> (inert: bool)
        requires
            self.wf(),
            index < KEY_COUNT,
        ensures
            inert == self@.voices[index as int].inert(),
    {
        match self.voices[index].strings {
            Some(strings) => strings.is_silent() && !strings.is_receptive(),
            None => true,
        }
    }

    /// Takes back the strings of key `index` after a block of samples, with
    /// their levels. Nothing where the key has no strings.
    pub fn put_group(&mut self, index: usize, group: UnisonGroup)
        requires
            old(self).wf(),
            group.wf(),
            index < KEY_COUNT,
        ensures
            final(self).wf(),
            final(self)@ == (EngineState {
                voices: old(self)@.voices.update(
                    index as int,
                    old(self)@.voices[index as int].with_strings(|g: UnisonGroup| group),
                ),
                ..old(self)@
            }),
    {
        let mut voice = self.voices[index];
        if voice.strings.is_some() {
            voice.strings = Some(group);
        }
        self.voices.set(index, voice);
        assert(self@ =~= EngineState {
            voices: old(self)@.voices.update(
                index as int,
                old(self)@.voices[index as int].with_strings(|g: UnisonGroup| group),
            ),
            ..old(self)@
        });
    }

    /// Soundboard mode `index`, where there is one.
    pub fn soundboard_mode(&self, index: usize) -> (mode: Option<SoundboardMode>)
        requires
            self.wf(),
        ensures
            mode == if index < soundboard::MODE_COUNT {
                Some(self@.modes[index as int])
            } else {
                None
            },
    {
        self.soundboard.mode_at(index)
    }

    /// Whether the sustain pedal is down.
    pub fn is_pedal_down(&self) -> (down: bool)
        ensures
            down == self@.pedal_down,
    {
        self.pedal_down
    }

    /// How much of the soundboard is mixed into the output.
    pub fn soundboard_mix_gain(&self) -> (gain: Binary32)
        ensures
            gain == self@.soundboard_mix_gain,
    {
        self.soundboard_mix_gain
    }

    /// The gain before the output limiter.
    pub fn master_gain(&self) -> (gain: Binary32)
        ensures
            gain == self@.master_gain,
    {
        self.master_gain
    }

    /// The exponent strike velocities are warped by.
    pub fn velocity_exponent(&self) -> (exponent: Binary32)
        ensures
            exponent == self@.velocity_exponent,
    {
        self.velocity_exponent
    }
}

/// The MIDI note number of the key a command is about, if it is about one key.
fn subject_of(command: Command) -> (midi: Option<u8>)
    ensures
        midi == subject(command),
{
    match command {
        Command::NoteOn { midi, .. } => Some(midi),
        Command::NoteOff { midi } => Some(midi),
        Command::SetStringDamping { midi, .. } => Some(midi),
        Command::SetStringSustain { midi, .. } => Some(midi),
        Command::SetStringInharmonicity { midi, .. } => Some(midi),
        Command::SetStringDetune { midi, .. } => Some(midi),
        Command::SetStringSeed { midi, .. } => Some(midi),
        Command::SetStringHammer { midi, .. } => Some(midi),
        _ => None,
    }
}

/// Whether a command retunes the loops it reaches.
fn is_tuning(command: Command) -> (tuning: bool)
    ensures
        tuning == (tunes(command) is Some),
{
    match command {
        Command::SetDamping { .. } => true,
        Command::SetStringDamping { .. } => true,
        Command::SetStringInharmonicity { .. } => true,
        Command::SetStringDetune { .. } => true,
        _ => false,
    }
}

} // verus!
