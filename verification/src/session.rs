//! The control side of a playback session: one method for every command.
//!
//! None of these methods ever waits for the audio thread. Where the ring is full
//! a command is dropped, and the caller is told so.
use crate::binary32::Binary32;
use crate::commands::Command;
use crate::hammer::HammerConfig;
use crate::queue;
use crate::soundboard::SoundboardMode;
use crate::units::SampleRate;
use rtrb::{Consumer, Producer};
use vstd::prelude::*;

verus! {

/// Commands the ring can hold before new ones are dropped.
pub const COMMAND_QUEUE_CAPACITY: usize = 256;

/// The means to talk to a live output stream.
pub struct AudioSession {
    producer: Producer<Command>,
    sample_rate: SampleRate,
}

/// `session` became `after` by sending `command`: it was queued as the next
/// command of the stream, or dropped without a trace. It is dropped only where the
/// ring is full, and never while fewer commands than the ring holds were sent
/// beyond those seen taken.
pub open spec fn sends(
    session: AudioSession,
    after: AudioSession,
    command: Command,
    queued: bool,
) -> bool {
    &&& after.stream() == session.stream()
    &&& after.room() == session.room()
    &&& after.rate() == session.rate()
    &&& queued ==> after.sent() == session.sent() + 1 && session.stream()[session.sent() as int]
        == command
    &&& !queued ==> after.sent() == session.sent() && after.sent() == after.freed()
        + after.room()
    &&& session.freed() <= after.freed() <= after.sent()
    &&& session.sent() < session.freed() + session.room() ==> queued
}

/// `kept` are places in `commands`, in order, at which the commands stand that
/// `stream` holds from number `from` on.
pub open spec fn are_kept(
    commands: Seq<Command>,
    kept: Seq<int>,
    stream: Map<int, Command>,
    from: int,
) -> bool {
    &&& forall|k: int| 0 <= k < kept.len() ==> 0 <= #[trigger] kept[k] < commands.len()
    &&& forall|k: int, l: int| 0 <= k < l < kept.len() ==> #[trigger] kept[k] < #[trigger] kept[l]
    &&& forall|k: int|
        0 <= k < kept.len() ==> stream[from + k] == commands[#[trigger] kept[k]]
}

/// Command `i` of those that are sent is queued in its own place where there is room
/// for it and all before it.
pub open spec fn gets_through(
    session: AudioSession,
    after: AudioSession,
    commands: Seq<Command>,
    i: int,
) -> bool {
    session.sent() + i < session.freed() + session.room() ==> session.sent() + i < after.sent()
        && session.stream()[session.sent() + i] == commands[i]
}

/// `session` became `after` by sending `commands`, one after the other. Whatever was
/// dropped on the way, what was queued is some of them, in order and each at most
/// once; and the first ones, as many as there was room for, were all queued.
pub open spec fn sends_all(
    session: AudioSession,
    after: AudioSession,
    commands: Seq<Command>,
) -> bool {
    &&& after.stream() == session.stream()
    &&& after.room() == session.room()
    &&& after.rate() == session.rate()
    &&& session.freed() <= after.freed()
    &&& session.sent() <= after.sent()
    &&& exists|kept: Seq<int>| #[trigger]
        are_kept(commands, kept, session.stream(), session.sent() as int) && kept.len()
            == after.sent() - session.sent()
    &&& forall|i: int| 0 <= i < commands.len() ==> #[trigger] gets_through(session, after, commands, i)
}

/// Sending nothing is sending no commands.
pub proof fn lemma_sends_none(session: AudioSession)
    ensures
        sends_all(session, session, Seq::empty()),
{
    assert(are_kept(Seq::empty(), Seq::empty(), session.stream(), session.sent() as int));
}

/// One more command sent after some is all of them sent.
pub proof fn lemma_sends_one_more(
    session: AudioSession,
    between: AudioSession,
    after: AudioSession,
    commands: Seq<Command>,
    command: Command,
    queued: bool,
)
    requires
        sends_all(session, between, commands),
        sends(between, after, command, queued),
    ensures
        sends_all(session, after, commands.push(command)),
{
    let all = commands.push(command);
    let from = session.sent() as int;
    let kept = choose|kept: Seq<int>| #[trigger]
        are_kept(commands, kept, session.stream(), from) && kept.len() == between.sent() - from;
    let longer = if queued {
        kept.push(commands.len() as int)
    } else {
        kept
    };
    assert forall|k: int| 0 <= k < longer.len() implies session.stream()[from + k]
        == all[#[trigger] longer[k]] by {
        if k < kept.len() {
            assert(longer[k] == kept[k]);
        }
    }
    assert(are_kept(all, longer, session.stream(), from));
    assert forall|i: int| 0 <= i < all.len() implies #[trigger] gets_through(
        session,
        after,
        all,
        i,
    ) by {
        if i < commands.len() {
            assert(gets_through(session, between, commands, i));
        } else {
            lemma_kept_fits(commands, kept, session.stream(), from);
            if i > 0 {
                assert(gets_through(session, between, commands, i - 1));
            }
        }
    }
}

/// No more are kept than there are.
proof fn lemma_kept_fits(
    commands: Seq<Command>,
    kept: Seq<int>,
    stream: Map<int, Command>,
    from: int,
)
    requires
        are_kept(commands, kept, stream, from),
    ensures
        kept.len() <= commands.len(),
    decreases kept.len(),
{
    if kept.len() > 0 {
        let last = kept.last();
        assert(kept[kept.len() - 1] == last);
        let shorter = kept.drop_last();
        assert forall|k: int| 0 <= k < shorter.len() implies 0 <= #[trigger] shorter[k]
            < commands.take(last).len() by {
            assert(kept[k] < kept[kept.len() - 1]);
        }
        assert forall|k: int| 0 <= k < shorter.len() implies stream[from + k]
            == commands.take(last)[#[trigger] shorter[k]] by {
            assert(shorter[k] == kept[k]);
        }
        lemma_kept_fits(commands.take(last), shorter, stream, from);
    }
}

impl AudioSession {
    /// Every command the session ever queues, by number.
    pub closed spec fn stream(self) -> Map<int, Command> {
        queue::sending_stream(self.producer)
    }

    /// How many commands were queued so far.
    pub closed spec fn sent(self) -> nat {
        queue::sent(self.producer)
    }

    /// How many of them were seen taken at the other end so far.
    pub closed spec fn freed(self) -> nat {
        queue::freed(self.producer)
    }

    /// How many commands can wait at once.
    pub closed spec fn room(self) -> nat {
        queue::room(self.producer)
    }

    /// The sample rate the engine is tuned for.
    pub closed spec fn rate(self) -> SampleRate {
        self.sample_rate
    }

    /// A session for an engine tuned to `sample_rate`, and the end of the ring
    /// its commands come out of.
    pub fn open(sample_rate: SampleRate) -> (ends: (Self, Consumer<Command>))
        ensures
            ends.0.rate() == sample_rate,
            ends.0.sent() == 0,
            ends.0.freed() == 0,
            ends.0.room() == COMMAND_QUEUE_CAPACITY,
            queue::taken(ends.1) == 0,
            queue::seen(ends.1) == 0,
            queue::receiving_stream(ends.1) == ends.0.stream(),
    {
        let (producer, consumer) = queue::new_ring(COMMAND_QUEUE_CAPACITY);
        (AudioSession { producer, sample_rate }, consumer)
    }

    /// Queues `command`. Returns `false` if the queue was full and the command
    /// was dropped.
    pub fn send(&mut self, command: Command) -> (queued: bool)
        ensures
            sends(*old(self), *final(self), command, queued),
    {
        queue::push(&mut self.producer, command)
    }

    /// Queues a note strike.
    pub fn note_on(&mut self, midi: u8, velocity: Binary32) -> (queued: bool)
        ensures
            sends(*old(self), *final(self), Command::NoteOn { midi, velocity }, queued),
    {
        self.send(Command::NoteOn { midi, velocity })
    }

    /// Queues silencing every ringing voice.
    pub fn all_notes_off(&mut self) -> (queued: bool)
        ensures
            sends(*old(self), *final(self), Command::AllNotesOff, queued),
    {
        self.send(Command::AllNotesOff)
    }

    /// Queues releasing one key, which the sustain pedal may hold back.
    pub fn note_off(&mut self, midi: u8) -> (queued: bool)
        ensures
            sends(*old(self), *final(self), Command::NoteOff { midi }, queued),
    {
        self.send(Command::NoteOff { midi })
    }

    /// Queues a new sustain-pedal hold state.
    pub fn set_sustain_pedal(&mut self, down: bool) -> (queued: bool)
        ensures
            sends(*old(self), *final(self), Command::SustainPedal { down }, queued),
    {
        self.send(Command::SustainPedal { down })
    }

    /// Queues a new damping for every voice.
    pub fn set_damping(&mut self, damping: Binary32) -> (queued: bool)
        ensures
            sends(*old(self), *final(self), Command::SetDamping { damping }, queued),
    {
        self.send(Command::SetDamping { damping })
    }

    /// Queues a new sustain for every voice.
    pub fn set_sustain(&mut self, sustain: Binary32) -> (queued: bool)
        ensures
            sends(*old(self), *final(self), Command::SetSustain { sustain }, queued),
    {
        self.send(Command::SetSustain { sustain })
    }

    /// Queues rebuilding one of the soundboard's modes.
    pub fn set_soundboard_mode(&mut self, index: usize, mode: SoundboardMode) -> (queued: bool)
        ensures
            sends(*old(self), *final(self), Command::SetSoundboardMode { index, mode }, queued),
    {
        self.send(Command::SetSoundboardMode { index, mode })
    }

    /// Queues a new soundboard mix gain.
    pub fn set_soundboard_mix_gain(&mut self, gain: Binary32) -> (queued: bool)
        ensures
            sends(*old(self), *final(self), Command::SetSoundboardMixGain { gain }, queued),
    {
        self.send(Command::SetSoundboardMixGain { gain })
    }

    /// Queues a new master gain.
    pub fn set_master_gain(&mut self, gain: Binary32) -> (queued: bool)
        ensures
            sends(*old(self), *final(self), Command::SetMasterGain { gain }, queued),
    {
        self.send(Command::SetMasterGain { gain })
    }

    /// Queues a new velocity-curve exponent.
    pub fn set_velocity_curve(&mut self, exponent: Binary32) -> (queued: bool)
        ensures
            sends(*old(self), *final(self), Command::SetVelocityCurve { exponent }, queued),
    {
        self.send(Command::SetVelocityCurve { exponent })
    }

    /// Queues a new coupling gain within every voice.
    pub fn set_local_coupling_gain(&mut self, gain: Binary32) -> (queued: bool)
        ensures
            sends(*old(self), *final(self), Command::SetLocalCouplingGain { gain }, queued),
    {
        self.send(Command::SetLocalCouplingGain { gain })
    }

    /// Queues a new coupling gain between every voice and the bridge.
    pub fn set_global_coupling_gain(&mut self, gain: Binary32) -> (queued: bool)
        ensures
            sends(*old(self), *final(self), Command::SetGlobalCouplingGain { gain }, queued),
    {
        self.send(Command::SetGlobalCouplingGain { gain })
    }

    /// Queues a new damping for one string.
    pub fn set_string_damping(&mut self, midi: u8, string_index: u8, damping: Binary32) -> (queued:
        bool)
        ensures
            sends(
                *old(self),
                *final(self),
                Command::SetStringDamping { midi, string_index, damping },
                queued,
            ),
    {
        self.send(Command::SetStringDamping { midi, string_index, damping })
    }

    /// Queues a new sustain for one string.
    pub fn set_string_sustain(&mut self, midi: u8, string_index: u8, sustain: Binary32) -> (queued:
        bool)
        ensures
            sends(
                *old(self),
                *final(self),
                Command::SetStringSustain { midi, string_index, sustain },
                queued,
            ),
    {
        self.send(Command::SetStringSustain { midi, string_index, sustain })
    }

    /// Queues a new inharmonicity for one string.
    pub fn set_string_inharmonicity(
        &mut self,
        midi: u8,
        string_index: u8,
        inharmonicity: Binary32,
    ) -> (queued: bool)
        ensures
            sends(
                *old(self),
                *final(self),
                Command::SetStringInharmonicity { midi, string_index, inharmonicity },
                queued,
            ),
    {
        self.send(Command::SetStringInharmonicity { midi, string_index, inharmonicity })
    }

    /// Queues tuning one string away from its key.
    pub fn set_string_detune(&mut self, midi: u8, string_index: u8, cents: Binary32) -> (queued:
        bool)
        ensures
            sends(
                *old(self),
                *final(self),
                Command::SetStringDetune { midi, string_index, cents },
                queued,
            ),
    {
        self.send(Command::SetStringDetune { midi, string_index, cents })
    }

    /// Queues a new noise seed for one string.
    pub fn set_string_seed(&mut self, midi: u8, string_index: u8, seed: u32) -> (queued: bool)
        ensures
            sends(
                *old(self),
                *final(self),
                Command::SetStringSeed { midi, string_index, seed },
                queued,
            ),
    {
        self.send(Command::SetStringSeed { midi, string_index, seed })
    }

    /// Queues a new hammer for one string.
    pub fn set_string_hammer(&mut self, midi: u8, string_index: u8, hammer: HammerConfig) -> (
        queued: bool)
        ensures
            sends(
                *old(self),
                *final(self),
                Command::SetStringHammer { midi, string_index, hammer },
                queued,
            ),
    {
        self.send(Command::SetStringHammer { midi, string_index, hammer })
    }

    /// The sample rate the engine is tuned for: the output device's own.
    pub fn sample_rate(&self) -> (rate: SampleRate)
        ensures
            rate == self.rate(),
    {
        self.sample_rate
    }
}

/// Commands come out in the order in which they were sent: of two that were queued
/// one after the other, the other end of the ring takes the first as its number
/// `first.sent()` and the second as the one right after it.
pub proof fn commands_arrive_in_order(
    first: AudioSession,
    second: AudioSession,
    third: AudioSession,
    earlier: Command,
    later: Command,
    consumer: Consumer<Command>,
)
    requires
        sends(first, second, earlier, true),
        sends(second, third, later, true),
        queue::receiving_stream(consumer) == first.stream(),
    ensures
        queue::receiving_stream(consumer)[first.sent() as int] == earlier,
        queue::receiving_stream(consumer)[first.sent() as int + 1] == later,
{
}

} // verus!
