//! What the bytes on the wire mean, on whichever channel they come.
use crate::binary32::Binary32;
use crate::commands::Command;
use crate::midi;
use crate::midi::{DataByte, MidiEvent};
use crate::rounding;
use vstd::arithmetic::power2::pow2;
use vstd::prelude::*;

verus! {

/// The channel is of no account, and neither is anything after the third byte: two
/// messages that agree in the upper half of the first byte and in the two bytes after it
/// decode alike.
pub proof fn channels_are_of_no_account(
    message: &[u8],
    other: &[u8],
    event: Option<MidiEvent>,
    other_event: Option<MidiEvent>,
)
    requires
        message@.len() >= 3,
        other@.len() >= 3,
        message@[0] as int / 16 == other@[0] as int / 16,
        message@[1] == other@[1],
        message@[2] == other@[2],
        call_ensures(MidiEvent::decode, (message,), event),
        call_ensures(MidiEvent::decode, (other,), other_event),
    ensures
        event == other_event,
{
}

/// On each of the sixteen channels, a message of kind 8 is the release of the note in its
/// second byte, whatever the third; a message of kind 9 is that too where its third byte
/// is zero, and otherwise the strike of that note with the third byte for its strength;
/// a message of kind 11 is the change of the controller in its second byte to the value
/// in its third.
pub proof fn every_channel_is_heard(message: &[u8], channel: u8, event: Option<MidiEvent>)
    requires
        message@.len() >= 3,
        channel < 16,
        call_ensures(MidiEvent::decode, (message,), event),
    ensures
        message@[0] == 0x80 + channel ==> event == Some(MidiEvent::NoteOff { note: message@[1] }),
        message@[0] == 0x90 + channel && message@[2] == 0 ==> event == Some(
            MidiEvent::NoteOff { note: message@[1] },
        ),
        message@[0] == 0x90 + channel && message@[2] != 0 ==> event == Some(
            MidiEvent::NoteOn { note: message@[1], velocity: DataByte { data: message@[2] } },
        ),
        message@[0] == 0xb0 + channel ==> event == Some(
            MidiEvent::ControlChange {
                controller: message@[1],
                value: DataByte { data: message@[2] },
            },
        ),
{
}

/// Nothing else is heard: an event comes only of a message of at least three bytes, of
/// one of those three kinds.
pub proof fn nothing_else_is_heard(message: &[u8], event: Option<MidiEvent>)
    requires
        call_ensures(MidiEvent::decode, (message,), event),
        event is Some,
    ensures
        message@.len() >= 3,
        0x80 <= message@[0] <= 0x9f || 0xb0 <= message@[0] <= 0xbf,
        event->0 is NoteOn ==> 0x90 <= message@[0] <= 0x9f && message@[2] > 0,
        event->0 is NoteOff ==> message@[0] <= 0x8f || message@[0] <= 0x9f && message@[2] == 0,
        event->0 is ControlChange ==> 0xb0 <= message@[0] <= 0xbf,
{
}

/// Different notes, velocities and values stay different: two messages of one kind that
/// decode alike agree in their second bytes, and in their third unless they release a
/// note.
pub proof fn decoding_loses_nothing(message: &[u8], other: &[u8], event: Option<MidiEvent>)
    requires
        call_ensures(MidiEvent::decode, (message,), event),
        call_ensures(MidiEvent::decode, (other,), event),
        event is Some,
    ensures
        message@[1] == other@[1],
        event->0 is NoteOff || message@[2] == other@[2],
        event->0 is NoteOff || message@[0] as int / 16 == other@[0] as int / 16,
{
}

/// `value` is the binary fraction nearest to `data` out of 127.
pub open spec fn is_fraction(value: Binary32, data: u8) -> bool {
    &&& value.bits < 0x8000_0000
    &&& rounding::is_nearest(value, data * pow2(149), 127)
}

/// Every strike is played at the note struck, with the fraction nearest to its byte out
/// of 127 for its strength; every release is played at the note released.
pub proof fn every_note_is_played(
    note: u8,
    velocity: u8,
    struck: Option<Command>,
    released: Option<Command>,
)
    requires
        call_ensures(
            midi::translate,
            (MidiEvent::NoteOn { note, velocity: DataByte { data: velocity } },),
            struck,
        ),
        call_ensures(midi::translate, (MidiEvent::NoteOff { note },), released),
    ensures
        struck matches Some(Command::NoteOn { midi, velocity: strength }) && midi == note
            && is_fraction(strength, velocity),
        released == Some(Command::NoteOff { midi: note }),
{
    rounding::fraction_is_nearest(velocity);
}

/// Controller 64 is the pedal, down from half its range on; controller 1 is the sustain,
/// and grows with its value; controller 74 is the damping, which falls as its value
/// grows, from one to zero. No other controller plays anything.
pub proof fn every_controller_has_its_meaning(
    controller: u8,
    value: u8,
    command: Option<Command>,
)
    requires
        call_ensures(
            midi::translate,
            (MidiEvent::ControlChange { controller, value: DataByte { data: value } },),
            command,
        ),
    ensures
        controller == 64 ==> command == Some(Command::SustainPedal { down: value >= 64 }),
        controller == 1 ==> {
            &&& command matches Some(Command::SetSustain { sustain })
            &&& is_fraction(command->0->SetSustain_sustain, value)
        },
        controller == 74 ==> command->0 is SetDamping && command is Some,
        controller == 74 && value <= 127 ==> exists|fraction: Binary32| #[trigger]
            is_fraction(fraction, value) && rounding::is_nearest(
                command->0->SetDamping_damping,
                pow2(149) - fraction.units(),
                1,
            ),
        controller == 74 && value == 0 ==> command == Some(
            Command::SetDamping { damping: Binary32 { bits: 0x3f80_0000 } },
        ),
        controller == 74 && value == 127 ==> command == Some(
            Command::SetDamping { damping: Binary32 { bits: 0 } },
        ),
        controller != 64 && controller != 1 && controller != 74 ==> command is None,
{
    rounding::fraction_is_nearest(value);
    rounding::fraction_extremes();
    rounding::one_in_units();
    if controller == 74 && value <= 127 {
        assert(is_fraction((DataByte { data: value }).fraction(), value));
        let damping = command->0->SetDamping_damping;
        if value == 0 {
            rounding::lemma_nearest_is_unique(damping, pow2(149) as int, 1);
            rounding::one_is_nearest();
        } else if value == 127 {
            rounding::lemma_nearest_is_unique(damping, 0, 1);
            rounding::one_is_nearest();
        }
    }
}

/// The harder a key is struck the stronger the strike; the further the sustain wheel is
/// turned the longer the sustain; the further the damping knob is turned the less the
/// damping.
pub proof fn values_keep_their_order(
    note: u8,
    low: u8,
    high: u8,
    softer: Option<Command>,
    harder: Option<Command>,
    shorter: Option<Command>,
    longer: Option<Command>,
    darker: Option<Command>,
    brighter: Option<Command>,
)
    requires
        low < high,
        call_ensures(
            midi::translate,
            (MidiEvent::NoteOn { note, velocity: DataByte { data: low } },),
            softer,
        ),
        call_ensures(
            midi::translate,
            (MidiEvent::NoteOn { note, velocity: DataByte { data: high } },),
            harder,
        ),
        call_ensures(
            midi::translate,
            (MidiEvent::ControlChange { controller: 1, value: DataByte { data: low } },),
            shorter,
        ),
        call_ensures(
            midi::translate,
            (MidiEvent::ControlChange { controller: 1, value: DataByte { data: high } },),
            longer,
        ),
        call_ensures(
            midi::translate,
            (MidiEvent::ControlChange { controller: 74, value: DataByte { data: low } },),
            darker,
        ),
        call_ensures(
            midi::translate,
            (MidiEvent::ControlChange { controller: 74, value: DataByte { data: high } },),
            brighter,
        ),
        high <= 127,
    ensures
        softer->0->NoteOn_velocity.below(harder->0->NoteOn_velocity),
        shorter->0->SetSustain_sustain.below(longer->0->SetSustain_sustain),
        brighter->0->SetDamping_damping.at_most(darker->0->SetDamping_damping),
{
    rounding::fractions_are_ordered(low, high);
    let less = (DataByte { data: low }).fraction();
    let more = (DataByte { data: high }).fraction();
    crate::binary32::order_is_numeric(less, more);
    rounding::rounding_is_monotone(
        brighter->0->SetDamping_damping,
        darker->0->SetDamping_damping,
        pow2(149) - more.units(),
        pow2(149) - less.units(),
        1,
    );
}

} // verus!
