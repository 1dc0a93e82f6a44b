//! What a session and a studio send: each request as the command that it is, whole and
//! with nothing else.
use crate::binary32::Binary32;
use crate::commands::Command;
use crate::hammer::HammerConfig;
use crate::midi;
use crate::midi::{MidiEvent, MidiListener};
use crate::queue;
use crate::session;
use crate::session::AudioSession;
use crate::soundboard::SoundboardMode;
use crate::studio;
use crate::studio::StudioCommand;
use crate::units::SampleRate;
use rtrb::{Consumer, Producer};
use vstd::prelude::*;

verus! {

/// A request for `command` was answered by `queued`: where it was queued it is the next
/// command of the stream, and nothing but it was sent; where it was not, nothing was sent
/// and the queue was full; and it was queued where there was room.
pub open spec fn asks_for(
    before: AudioSession,
    command: Command,
    queued: bool,
    after: AudioSession,
) -> bool {
    &&& queued ==> after.sent() == before.sent() + 1 && after.stream()[before.sent() as int]
        == command
    &&& !queued ==> after.sent() == before.sent() && after.sent() == after.freed() + after.room()
    &&& before.sent() < before.freed() + before.room() ==> queued
    &&& after.stream() == before.stream()
    &&& after.room() == before.room()
    &&& after.rate() == before.rate()
}

/// Playing is sent as the command that it is, with every argument in its own place.
pub proof fn playing_is_sent_as_asked(
    before: AudioSession,
    queued: bool,
    midi: u8,
    velocity: Binary32,
    after_note_on: AudioSession,
    after_note_off: AudioSession,
    after_all_notes_off: AudioSession,
    down: bool,
    after_set_sustain_pedal: AudioSession,
)
    requires
        exists|session: &mut AudioSession| #[trigger]
            call_ensures(AudioSession::note_on, (session, midi, velocity), queued)
                && *session == before && *final(session) == after_note_on,
        exists|session: &mut AudioSession| #[trigger]
            call_ensures(AudioSession::note_off, (session, midi), queued)
                && *session == before && *final(session) == after_note_off,
        exists|session: &mut AudioSession| #[trigger]
            call_ensures(AudioSession::all_notes_off, (session,), queued)
                && *session == before && *final(session) == after_all_notes_off,
        exists|session: &mut AudioSession| #[trigger]
            call_ensures(AudioSession::set_sustain_pedal, (session, down), queued)
                && *session == before && *final(session) == after_set_sustain_pedal,
    ensures
        asks_for(before, Command::NoteOn { midi, velocity }, queued, after_note_on),
        asks_for(before, Command::NoteOff { midi }, queued, after_note_off),
        asks_for(before, Command::AllNotesOff, queued, after_all_notes_off),
        asks_for(before, Command::SustainPedal { down }, queued, after_set_sustain_pedal),
{
}

/// A setting of the whole instrument is sent as the command that it is, with every
/// argument in its own place.
pub proof fn settings_are_sent_as_asked(
    before: AudioSession,
    queued: bool,
    damping: Binary32,
    after_set_damping: AudioSession,
    sustain: Binary32,
    after_set_sustain: AudioSession,
    index: usize,
    mode: SoundboardMode,
    after_set_soundboard_mode: AudioSession,
    gain: Binary32,
    after_set_soundboard_mix_gain: AudioSession,
    after_set_master_gain: AudioSession,
    exponent: Binary32,
    after_set_velocity_curve: AudioSession,
    after_set_local_coupling_gain: AudioSession,
    after_set_global_coupling_gain: AudioSession,
)
    requires
        exists|session: &mut AudioSession| #[trigger]
            call_ensures(AudioSession::set_damping, (session, damping), queued)
                && *session == before && *final(session) == after_set_damping,
        exists|session: &mut AudioSession| #[trigger]
            call_ensures(AudioSession::set_sustain, (session, sustain), queued)
                && *session == before && *final(session) == after_set_sustain,
        exists|session: &mut AudioSession| #[trigger]
            call_ensures(AudioSession::set_soundboard_mode, (session, index, mode), queued)
                && *session == before && *final(session) == after_set_soundboard_mode,
        exists|session: &mut AudioSession| #[trigger]
            call_ensures(AudioSession::set_soundboard_mix_gain, (session, gain), queued)
                && *session == before && *final(session) == after_set_soundboard_mix_gain,
        exists|session: &mut AudioSession| #[trigger]
            call_ensures(AudioSession::set_master_gain, (session, gain), queued)
                && *session == before && *final(session) == after_set_master_gain,
        exists|session: &mut AudioSession| #[trigger]
            call_ensures(AudioSession::set_velocity_curve, (session, exponent), queued)
                && *session == before && *final(session) == after_set_velocity_curve,
        exists|session: &mut AudioSession| #[trigger]
            call_ensures(AudioSession::set_local_coupling_gain, (session, gain), queued)
                && *session == before && *final(session) == after_set_local_coupling_gain,
        exists|session: &mut AudioSession| #[trigger]
            call_ensures(AudioSession::set_global_coupling_gain, (session, gain), queued)
                && *session == before && *final(session) == after_set_global_coupling_gain,
    ensures
        asks_for(before, Command::SetDamping { damping }, queued, after_set_damping),
        asks_for(before, Command::SetSustain { sustain }, queued, after_set_sustain),
        asks_for(
            before,
            Command::SetSoundboardMode { index, mode },
            queued,
            after_set_soundboard_mode,
        ),
        asks_for(
            before,
            Command::SetSoundboardMixGain { gain },
            queued,
            after_set_soundboard_mix_gain,
        ),
        asks_for(before, Command::SetMasterGain { gain }, queued, after_set_master_gain),
        asks_for(before, Command::SetVelocityCurve { exponent }, queued, after_set_velocity_curve),
        asks_for(
            before,
            Command::SetLocalCouplingGain { gain },
            queued,
            after_set_local_coupling_gain,
        ),
        asks_for(
            before,
            Command::SetGlobalCouplingGain { gain },
            queued,
            after_set_global_coupling_gain,
        ),
{
}

/// A setting of one string is sent as the command that it is, with every argument in
/// its own place.
pub proof fn string_settings_are_sent_as_asked(
    before: AudioSession,
    queued: bool,
    midi: u8,
    string_index: u8,
    damping: Binary32,
    after_set_string_damping: AudioSession,
    sustain: Binary32,
    after_set_string_sustain: AudioSession,
    inharmonicity: Binary32,
    after_set_string_inharmonicity: AudioSession,
    cents: Binary32,
    after_set_string_detune: AudioSession,
    seed: u32,
    after_set_string_seed: AudioSession,
    hammer: HammerConfig,
    after_set_string_hammer: AudioSession,
)
    requires
        exists|session: &mut AudioSession| #[trigger]
            call_ensures(
                AudioSession::set_string_damping,
                (session, midi, string_index, damping),
                queued,
            )
                && *session == before && *final(session) == after_set_string_damping,
        exists|session: &mut AudioSession| #[trigger]
            call_ensures(
                AudioSession::set_string_sustain,
                (session, midi, string_index, sustain),
                queued,
            )
                && *session == before && *final(session) == after_set_string_sustain,
        exists|session: &mut AudioSession| #[trigger]
            call_ensures(
                AudioSession::set_string_inharmonicity,
                (session, midi, string_index, inharmonicity),
                queued,
            )
                && *session == before && *final(session) == after_set_string_inharmonicity,
        exists|session: &mut AudioSession| #[trigger]
            call_ensures(
                AudioSession::set_string_detune,
                (session, midi, string_index, cents),
                queued,
            )
                && *session == before && *final(session) == after_set_string_detune,
        exists|session: &mut AudioSession| #[trigger]
            call_ensures(AudioSession::set_string_seed, (session, midi, string_index, seed), queued)
                && *session == before && *final(session) == after_set_string_seed,
        exists|session: &mut AudioSession| #[trigger]
            call_ensures(
                AudioSession::set_string_hammer,
                (session, midi, string_index, hammer),
                queued,
            )
                && *session == before && *final(session) == after_set_string_hammer,
    ensures
        asks_for(
            before,
            Command::SetStringDamping { midi, string_index, damping },
            queued,
            after_set_string_damping,
        ),
        asks_for(
            before,
            Command::SetStringSustain { midi, string_index, sustain },
            queued,
            after_set_string_sustain,
        ),
        asks_for(
            before,
            Command::SetStringInharmonicity { midi, string_index, inharmonicity },
            queued,
            after_set_string_inharmonicity,
        ),
        asks_for(
            before,
            Command::SetStringDetune { midi, string_index, cents },
            queued,
            after_set_string_detune,
        ),
        asks_for(
            before,
            Command::SetStringSeed { midi, string_index, seed },
            queued,
            after_set_string_seed,
        ),
        asks_for(
            before,
            Command::SetStringHammer { midi, string_index, hammer },
            queued,
            after_set_string_hammer,
        ),
{
}

/// A command that is sent is sent as it is.
pub proof fn commands_are_sent_as_they_are(
    before: AudioSession,
    after: AudioSession,
    command: Command,
    queued: bool,
)
    requires
        exists|session: &mut AudioSession| #[trigger]
            call_ensures(AudioSession::send, (session, command), queued)
                && *session == before && *final(session) == after,
    ensures
        asks_for(before, command, queued, after),
{
}

/// What a studio asks for is sent as the command of that name, with every argument in
/// its own place.
pub proof fn studios_send_what_they_ask(
    before: AudioSession,
    after: AudioSession,
    command: StudioCommand,
    queued: bool,
)
    requires
        exists|session: &mut AudioSession| #[trigger]
            call_ensures(studio::apply_command, (session, command), queued)
                && *session == before && *final(session) == after,
    ensures
        command == StudioCommand::AllNotesOff
            ==> asks_for(before, Command::AllNotesOff, queued, after),
        command is NoteOn
            ==> asks_for(
                before,
                Command::NoteOn { midi: command->NoteOn_midi, velocity: command->NoteOn_velocity },
                queued,
                after,
            ),
        command is NoteOff
            ==> asks_for(before, Command::NoteOff { midi: command->NoteOff_midi }, queued, after),
        command is SustainPedal
            ==> asks_for(
                before,
                Command::SustainPedal { down: command->SustainPedal_down },
                queued,
                after,
            ),
        command is SetStringDamping
            ==> asks_for(
                before,
                Command::SetStringDamping {
                    midi: command->SetStringDamping_midi,
                    string_index: command->SetStringDamping_string_index,
                    damping: command->SetStringDamping_damping,
                },
                queued,
                after,
            ),
        command is SetStringSustain
            ==> asks_for(
                before,
                Command::SetStringSustain {
                    midi: command->SetStringSustain_midi,
                    string_index: command->SetStringSustain_string_index,
                    sustain: command->SetStringSustain_sustain,
                },
                queued,
                after,
            ),
        command is SetStringInharmonicity
            ==> asks_for(
                before,
                Command::SetStringInharmonicity {
                    midi: command->SetStringInharmonicity_midi,
                    string_index: command->SetStringInharmonicity_string_index,
                    inharmonicity: command->SetStringInharmonicity_inharmonicity,
                },
                queued,
                after,
            ),
        command is SetStringDetune
            ==> asks_for(
                before,
                Command::SetStringDetune {
                    midi: command->SetStringDetune_midi,
                    string_index: command->SetStringDetune_string_index,
                    cents: command->SetStringDetune_cents,
                },
                queued,
                after,
            ),
        command is SetStringSeed
            ==> asks_for(
                before,
                Command::SetStringSeed {
                    midi: command->SetStringSeed_midi,
                    string_index: command->SetStringSeed_string_index,
                    seed: command->SetStringSeed_seed,
                },
                queued,
                after,
            ),
        command is SetStringHammer
            ==> asks_for(
                before,
                Command::SetStringHammer {
                    midi: command->SetStringHammer_midi,
                    string_index: command->SetStringHammer_string_index,
                    hammer: command->SetStringHammer_hammer,
                },
                queued,
                after,
            ),
        command is SetSoundboardMode
            ==> asks_for(
                before,
                Command::SetSoundboardMode {
                    index: command->SetSoundboardMode_index,
                    mode: command->SetSoundboardMode_mode,
                },
                queued,
                after,
            ),
        command is SetLocalCouplingGain
            ==> asks_for(
                before,
                Command::SetLocalCouplingGain { gain: command->SetLocalCouplingGain_gain },
                queued,
                after,
            ),
        command is SetGlobalCouplingGain
            ==> asks_for(
                before,
                Command::SetGlobalCouplingGain { gain: command->SetGlobalCouplingGain_gain },
                queued,
                after,
            ),
{
}

/// What a controller plays is sent as it was played: a strike and a release at their
/// note, the pedal as it moved; and a controller that means nothing sends nothing.
pub proof fn controllers_send_what_they_play(
    before: AudioSession,
    after: AudioSession,
    event: MidiEvent,
    queued: bool,
)
    requires
        exists|session: &mut AudioSession| #[trigger]
            call_ensures(midi::apply, (session, event), queued)
                && *session == before && *final(session) == after,
    ensures
        event matches MidiEvent::NoteOff { note }
            ==> asks_for(before, Command::NoteOff { midi: note }, queued, after),
        event matches MidiEvent::NoteOn { note, velocity }
            ==> asks_for(
                before,
                Command::NoteOn { midi: note, velocity: velocity.fraction() },
                queued,
                after,
            ),
        event matches MidiEvent::ControlChange { controller, value }
            ==> (
                controller == 64
                    ==> asks_for(
                        before,
                        Command::SustainPedal { down: value.data >= 64 },
                        queued,
                        after,
                    )
            ),
        event matches MidiEvent::ControlChange { controller, value }
            ==> (
                controller == 1
                    ==> asks_for(
                        before,
                        Command::SetSustain { sustain: value.fraction() },
                        queued,
                        after,
                    )
            ),
        event matches MidiEvent::ControlChange { controller, value }
            ==> (
                controller != 1 && controller != 64 && controller != 74
                    ==> after == before && !queued
            ),
{
}

/// Everything a studio asks for at once is sent, in order, where there is room for it
/// all; and at a tick as much of what waits, from the first on, as a tick takes.
pub proof fn studios_send_everything_in_order(
    before: AudioSession,
    after: AudioSession,
    commands: &Vec<StudioCommand>,
    queued: usize,
    drained: AudioSession,
    waiting: &[StudioCommand],
    taken: usize,
    i: int,
)
    requires
        exists|session: &mut AudioSession| #[trigger]
            call_ensures(studio::apply_commands, (session, commands), queued)
                && *session == before && *final(session) == after,
        exists|session: &mut AudioSession| #[trigger]
            call_ensures(studio::drain_studio_commands, (session, waiting), taken)
                && *session == before && *final(session) == drained,
    ensures
        after.sent() == before.sent() + queued,
        waiting@.len() <= 256 ==> taken == waiting@.len(),
        waiting@.len() > 256 ==> taken == 256,
        0 <= i < commands@.len()
            && before.sent() + commands@.len() <= before.freed() + before.room()
            ==> before.sent() + i < after.sent()
                && after.stream()[before.sent() + i] == studio::meaning(commands@[i]),
        0 <= i < taken && before.sent() + taken <= before.freed() + before.room()
            ==> before.sent() + i < drained.sent()
                && drained.stream()[before.sent() + i] == studio::meaning(waiting@[i]),
{
    if 0 <= i < commands@.len() {
        assert(session::gets_through(before, after, studio::meanings(commands@), i));
    }
    if 0 <= i < taken {
        assert(session::gets_through(
            before,
            drained,
            studio::meanings(waiting@.take(taken as int)),
            i,
        ));
    }
}

/// A session begins with nothing sent and room for two hundred and fifty-six commands,
/// and what it sends is what is received at the other end.
pub proof fn sessions_begin_empty(
    rate: SampleRate,
    ends: (AudioSession, Consumer<Command>),
)
    requires
        call_ensures(AudioSession::open, (rate,), ends),
    ensures
        ends.0.rate() == rate,
        ends.0.sent() == 0,
        ends.0.room() == 256,
        queue::taken(ends.1) == 0,
        queue::receiving_stream(ends.1) == ends.0.stream(),
{
}

/// A message that means an event arrives as that event, next in line, where there is
/// room; a message that means nothing leaves the ring alone.
pub proof fn messages_arrive_as_events(
    message: &[u8],
    event: Option<MidiEvent>,
    before: Producer<MidiEvent>,
    after: Producer<MidiEvent>,
    queued: bool,
)
    requires
        call_ensures(MidiEvent::decode, (message,), event),
        exists|ring: &mut Producer<MidiEvent>|
            #[trigger] call_ensures(midi::on_midi_message, (message, ring), queued)
                && *ring == before && *final(ring) == after,
    ensures
        event is None ==> !queued && after == before,
        event is Some
            && midi::arrived(before) < midi::event_freed(before) + midi::event_room(before)
            ==> queued,
        queued
            ==> event is Some && midi::arrived(after) == midi::arrived(before) + 1
                && midi::arriving_events(after)[midi::arrived(before) as int] == event->0,
        !queued ==> midi::arrived(after) == midi::arrived(before),
{
}

proof fn lemma_every_event_means_one(events: Seq<MidiEvent>, i: int)
    requires
        0 <= i < events.len(),
        forall|k: int| 0 <= k < events.len() ==> midi::command_for(#[trigger] events[k]) is Some,
    ensures
        midi::commands_for(events).len() == events.len(),
        midi::commands_for(events)[i] == midi::command_for(events[i])->0,
    decreases events.len(),
{
    let shorter = events.drop_last();
    assert(midi::command_for(events[events.len() - 1]) is Some);
    if events.len() > 1 {
        assert forall|k: int| 0 <= k < shorter.len() implies midi::command_for(
            #[trigger] shorter[k],
        ) is Some by {
            assert(shorter[k] == events[k]);
        }
        lemma_every_event_means_one(
            shorter,
            if i < shorter.len() {
                i
            } else {
                0
            },
        );
    } else {
        assert(midi::commands_for(shorter) == Seq::<Command>::empty());
    }
}

/// Events that all mean something are played in the order in which they came, each as
/// the command it means, where there is room for them all.
pub proof fn events_are_played_in_order(
    before: AudioSession,
    after: AudioSession,
    heard: MidiListener,
    left: MidiListener,
    i: int,
    event: MidiEvent,
    command: Option<Command>,
)
    requires
        exists|session: &mut AudioSession, listener: &mut MidiListener|
            {
                &&& #[trigger] call_ensures(midi::drain_midi, (session, listener), ())
                &&& *session == before
                &&& *final(session) == after
                &&& *listener == heard
                &&& *final(listener) == left
            },
        0 <= i < left.polled() - heard.polled(),
        event == heard.events()[heard.polled() + i],
        call_ensures(midi::translate, (event,), command),
        forall|k: int|
            heard.polled() <= k < left.polled()
                ==> midi::command_for(#[trigger] heard.events()[k]) is Some,
        before.sent() + (left.polled() - heard.polled()) <= before.freed() + before.room(),
    ensures
        left.polled() - heard.polled() <= 256,
        before.sent() + i < after.sent(),
        command is Some,
        after.stream()[before.sent() + i] == command->0,
{
    let count = left.polled() - heard.polled();
    let run = midi::event_run(heard.events(), heard.polled() as int, left.polled() as int);
    lemma_every_event_means_one(run, i);
    assert(session::gets_through(before, after, midi::commands_for(run), i));
}

} // verus!
