//! Plain-data commands that cross from a control thread to the audio thread.
//!
//! The audio thread never locks, so every command is plain copyable data: there
//! is nothing in it whose last owner could end up freeing memory there.
use crate::binary32::Binary32;
use crate::hammer::HammerConfig;
use crate::soundboard::SoundboardMode;
use vstd::prelude::*;

verus! {

/// A command the audio thread drains at the top of every callback.
#[derive(Debug, Clone, Copy, PartialEq, Eq, Structural)]
pub enum Command {
    /// Strike a key.
    NoteOn {
        /// MIDI note number of the key struck.
        midi: u8,
        /// Strike strength, zero to one.
        velocity: Binary32,
    },
    /// Silence every ringing voice immediately.
    AllNotesOff,
    /// Set the high-frequency loss on every voice, ringing or not.
    SetDamping {
        /// New damping, zero to one.
        damping: Binary32,
    },
    /// Set the broadband loop gain on every voice, ringing or not.
    SetSustain {
        /// New sustain, zero to one.
        sustain: Binary32,
    },
    /// Release one key. While the sustain pedal is down the voice is held
    /// rather than released.
    NoteOff {
        /// MIDI note number of the key released.
        midi: u8,
    },
    /// Set the sustain pedal's hold state, which is not the sustain of
    /// [`Command::SetSustain`]: while it is down a released key keeps ringing,
    /// and when it comes up everything it was holding is released.
    SustainPedal {
        /// Whether the pedal is held down.
        down: bool,
    },
    /// Rebuild one of the soundboard's modes.
    SetSoundboardMode {
        /// Which mode; an index outside the bank is ignored.
        index: usize,
        /// The mode's new frequency, decay time and gain.
        mode: SoundboardMode,
    },
    /// Set how much of the soundboard is mixed into the output, zero to two. A
    /// NaN or a negative value mutes it.
    SetSoundboardMixGain {
        /// New soundboard mix gain.
        gain: Binary32,
    },
    /// Set the gain applied just before the output limiter, zero to four. A NaN
    /// or a negative value silences the output.
    SetMasterGain {
        /// New master gain.
        gain: Binary32,
    },
    /// Set the exponent strike velocities are warped by.
    SetVelocityCurve {
        /// New exponent; one is a linear map.
        exponent: Binary32,
    },
    /// Set how strongly each voice's own strings couple to each other.
    SetLocalCouplingGain {
        /// New gain, zero to one.
        gain: Binary32,
    },
    /// Set how strongly each voice couples to the shared bridge.
    SetGlobalCouplingGain {
        /// New gain, zero to one.
        gain: Binary32,
    },
    /// Set one string's damping.
    SetStringDamping {
        /// MIDI note number of the key the string belongs to.
        midi: u8,
        /// Which string of that key, from zero.
        string_index: u8,
        /// New damping, zero to one.
        damping: Binary32,
    },
    /// Set one string's sustain.
    SetStringSustain {
        /// MIDI note number of the key the string belongs to.
        midi: u8,
        /// Which string of that key, from zero.
        string_index: u8,
        /// New sustain, zero to one.
        sustain: Binary32,
    },
    /// Set one string's inharmonicity coefficient.
    SetStringInharmonicity {
        /// MIDI note number of the key the string belongs to.
        midi: u8,
        /// Which string of that key, from zero.
        string_index: u8,
        /// New inharmonicity coefficient.
        inharmonicity: Binary32,
    },
    /// Tune one string away from its key's frequency.
    SetStringDetune {
        /// MIDI note number of the key the string belongs to.
        midi: u8,
        /// Which string of that key, from zero.
        string_index: u8,
        /// How far from the key's own frequency, in cents.
        cents: Binary32,
    },
    /// Reseed one string's noise for its next strike.
    SetStringSeed {
        /// MIDI note number of the key the string belongs to.
        midi: u8,
        /// Which string of that key, from zero.
        string_index: u8,
        /// New seed.
        seed: u32,
    },
    /// Change one string's felt-contact physics for its next strike.
    SetStringHammer {
        /// MIDI note number of the key the string belongs to.
        midi: u8,
        /// Which string of that key, from zero.
        string_index: u8,
        /// The string's new hammer.
        hammer: HammerConfig,
    },
}

} // verus!
