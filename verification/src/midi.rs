//! MIDI input: from the bytes on the wire to the commands they mean.
//!
//! The platform's driver calls back on a thread of its own, which only decodes
//! one message and puts it into a ring; whoever owns the [`MidiListener`] takes
//! events out again and plays them.
use crate::binary32::{Binary32, ONE_BITS, SIGN_WEIGHT};
use crate::commands::Command;
use crate::rounding;
use crate::session;
use crate::session::AudioSession;
use crate::string;
use rtrb::{Consumer, Producer, RingBuffer};
use vstd::arithmetic::power2::pow2;
use vstd::prelude::*;

verus! {

/// How many decoded events the ring holds before new ones are dropped.
pub const EVENT_QUEUE_CAPACITY: usize = 256;

/// Events played per tick of the control loop: a bound on one tick's work even
/// if a controller floods the ring.
pub const MAX_EVENTS_PER_TICK: usize = 256;

/// Controller mapped to the damping knob. Turning it up brightens, so it is
/// inverted.
pub const DAMPING_CC: u8 = 74;

/// Controller mapped to the sustain knob: the modulation wheel.
pub const SUSTAIN_CC: u8 = 1;

/// Controller of the sustain pedal, which is not the sustain knob.
pub const SUSTAIN_PEDAL_CC: u8 = 64;

/// The value from which on the pedal counts as down.
pub const SUSTAIN_PEDAL_DOWN: u8 = 64;

/// A data byte of a message: a velocity or a controller value.
#[derive(Debug, Clone, Copy, PartialEq, Eq, Structural)]
pub struct DataByte {
    /// The byte as it was sent, 0 to 127 from any conforming controller.
    pub data: u8,
}

impl DataByte {
    /// The byte as a fraction of its largest value, 127.
    pub open spec fn fraction(self) -> Binary32 {
        rounding::nearest(self.data * pow2(149), 127)
    }

    /// The byte as a fraction of its largest value, rounded to nearest.
    pub fn normalize(self) -> (value: Binary32)
        ensures
            value == self.fraction(),
    {
        rounding::seven_bit_fraction(self.data)
    }
}

/// A decoded channel-voice event, filtered down to what this instrument
/// understands.
#[derive(Debug, Clone, Copy, PartialEq, Eq, Structural)]
pub enum MidiEvent {
    /// A key was struck.
    NoteOn {
        /// MIDI note number.
        note: u8,
        /// Strike strength.
        velocity: DataByte,
    },
    /// A key was released.
    NoteOff {
        /// MIDI note number.
        note: u8,
    },
    /// A knob, a wheel or a pedal moved.
    ControlChange {
        /// The controller number.
        controller: u8,
        /// The controller value.
        value: DataByte,
    },
}

/// What a message means: its kind is the upper half of its first byte, and the
/// channel in the lower half is of no account.
pub open spec fn decoded(message: Seq<u8>) -> Option<MidiEvent> {
    if message.len() < 3 {
        None
    } else {
        let kind = message[0] as int / 16;
        let first = message[1];
        let second = message[2];
        if kind == 9 && second > 0 {
            Some(MidiEvent::NoteOn { note: first, velocity: DataByte { data: second } })
        } else if kind == 9 || kind == 8 {
            Some(MidiEvent::NoteOff { note: first })
        } else if kind == 11 {
            Some(MidiEvent::ControlChange { controller: first, value: DataByte { data: second } })
        } else {
            None
        }
    }
}

impl MidiEvent {
    /// Decodes one message.
    ///
    /// `None` for messages this instrument does not act on and for anything
    /// shorter than a complete channel-voice message: an unhandled message is
    /// not a malformed one, so this never fails. A note-on at velocity zero is
    /// the running-status idiom for a note-off.
    pub fn decode(message: &[u8]) -> (event: Option<MidiEvent>)
        ensures
            event == decoded(message@),
    {
        if message.len() < 3 {
            return None;
        }
        let kind: u8 = message[0] / 16;
        let first: u8 = message[1];
        let second: u8 = message[2];
        if kind == 9 && second > 0 {
            Some(MidiEvent::NoteOn { note: first, velocity: DataByte { data: second } })
        } else if kind == 9 || kind == 8 {
            Some(MidiEvent::NoteOff { note: first })
        } else if kind == 11 {
            Some(MidiEvent::ControlChange { controller: first, value: DataByte { data: second } })
        } else {
            None
        }
    }
}

/// The command an event means to the instrument, if it means one.
pub open spec fn command_for(event: MidiEvent) -> Option<Command> {
    match event {
        MidiEvent::NoteOn { note, velocity } => Some(
            Command::NoteOn { midi: note, velocity: velocity.fraction() },
        ),
        MidiEvent::NoteOff { note } => Some(Command::NoteOff { midi: note }),
        MidiEvent::ControlChange { controller, value } => if controller == DAMPING_CC {
            Some(Command::SetDamping { damping: rounding::one_minus(value.fraction()) })
        } else if controller == SUSTAIN_CC {
            Some(Command::SetSustain { sustain: value.fraction() })
        } else if controller == SUSTAIN_PEDAL_CC {
            Some(Command::SustainPedal { down: value.data >= SUSTAIN_PEDAL_DOWN })
        } else {
            None
        },
    }
}

/// Translates one event into the command it means, if it means one.
pub fn translate(event: MidiEvent) -> (command: Option<Command>)
    ensures
        command == command_for(event),
        event matches MidiEvent::ControlChange { controller, value } ==> (controller == DAMPING_CC
            && value.data <= 127 ==> (command matches Some(Command::SetDamping { damping })
            && damping.bits < SIGN_WEIGHT && rounding::is_nearest(
            damping,
            pow2(149) - value.fraction().units(),
            1,
        ))),
{
    match event {
        MidiEvent::NoteOn { note, velocity } => Some(
            Command::NoteOn { midi: note, velocity: velocity.normalize() },
        ),
        MidiEvent::NoteOff { note } => Some(Command::NoteOff { midi: note }),
        MidiEvent::ControlChange { controller, value } => {
            if controller == DAMPING_CC {
                let fraction = rounding::seven_bit_fraction(value.data);
                proof {
                    rounding::fraction_extremes();
                    rounding::fractions_are_ordered(value.data, 127);
                    rounding::one_in_units();
                    crate::binary32::order_is_numeric(Binary32::from_bits(ONE_BITS), fraction);
                }
                Some(Command::SetDamping { damping: rounding::complement(fraction) })
            } else if controller == SUSTAIN_CC {
                Some(Command::SetSustain { sustain: value.normalize() })
            } else if controller == SUSTAIN_PEDAL_CC {
                Some(Command::SustainPedal { down: value.data >= SUSTAIN_PEDAL_DOWN })
            } else {
                None
            }
        },
    }
}

/// Plays one event on `session`. An event that means nothing to the instrument
/// leaves it alone.
pub fn apply(session: &mut AudioSession, event: MidiEvent) -> (queued: bool)
    ensures
        match command_for(event) {
            Some(command) => session::sends(*old(session), *final(session), command, queued),
            None => *final(session) == *old(session) && !queued,
        },
{
    match translate(event) {
        Some(command) => session.send(command),
        None => false,
    }
}

/// The commands that a run of events means, in order.
pub open spec fn commands_for(events: Seq<MidiEvent>) -> Seq<Command>
    decreases events.len(),
{
    if events.len() == 0 {
        Seq::empty()
    } else {
        let before = commands_for(events.drop_last());
        match command_for(events.last()) {
            Some(command) => before.push(command),
            None => before,
        }
    }
}

/// Every event the ring behind `producer` ever accepts, by number.
pub uninterp spec fn arriving_events(producer: Producer<MidiEvent>) -> Map<int, MidiEvent>;

/// How many events `producer` has put into the ring so far.
pub uninterp spec fn arrived(producer: Producer<MidiEvent>) -> nat;

/// How many of them `producer` has seen taken out at the other end so far: it looks
/// afresh where the ring would otherwise be full.
pub uninterp spec fn event_freed(producer: Producer<MidiEvent>) -> nat;

/// How many events the ring behind `producer` holds at most.
pub uninterp spec fn event_room(producer: Producer<MidiEvent>) -> nat;

/// Every event the ring behind `consumer` ever accepts, by number.
pub uninterp spec fn waiting_events(consumer: Consumer<MidiEvent>) -> Map<int, MidiEvent>;

/// How many events `consumer` has taken out so far.
pub uninterp spec fn polled(consumer: Consumer<MidiEvent>) -> nat;

/// How many events `consumer` has seen arrive so far, taken out or not: it looks
/// afresh where it has taken all that it saw.
pub uninterp spec fn seen(consumer: Consumer<MidiEvent>) -> nat;

/// Makes a ring for events with `rtrb::RingBuffer::new`.
///
/// It holds up to `capacity` events, nothing has gone through either end or been
/// seen there, and the two ends share one run of events. The bound keeps the
/// allocation small enough to be made at all.
#[verifier::external_body]
fn new_event_ring(capacity: usize) -> (ends: (Producer<MidiEvent>, Consumer<MidiEvent>))
    requires
        capacity <= 0x1_0000,
    ensures
        arrived(ends.0) == 0,
        event_freed(ends.0) == 0,
        event_room(ends.0) == capacity,
        polled(ends.1) == 0,
        seen(ends.1) == 0,
        arriving_events(ends.0) == waiting_events(ends.1),
{
    RingBuffer::new(capacity)
}

/// Puts an event into the ring with `rtrb::Producer::push`, and says whether
/// there was room.
///
/// An event that was put in is the next one of the run. While fewer events than the
/// ring holds have been put in beyond those that this end has seen taken, there is
/// room. Only then does it look for more that were taken, and where the ring is
/// still full the event is dropped. Nothing is said of whether more have been taken
/// by then, which depends on the other end.
#[verifier::external_body]
fn push_event(producer: &mut Producer<MidiEvent>, event: MidiEvent) -> (queued: bool)
    ensures
        arriving_events(*final(producer)) == arriving_events(*old(producer)),
        event_room(*final(producer)) == event_room(*old(producer)),
        queued ==> arrived(*final(producer)) == arrived(*old(producer)) + 1 && arriving_events(
            *final(producer),
        )[arrived(*old(producer)) as int] == event,
        !queued ==> arrived(*final(producer)) == arrived(*old(producer)) && arrived(
            *final(producer),
        ) == event_freed(*final(producer)) + event_room(*final(producer)),
        event_freed(*old(producer)) <= event_freed(*final(producer)) <= arrived(*final(producer)),
        arrived(*old(producer)) < event_freed(*old(producer)) + event_room(*old(producer))
            ==> queued,
{
    producer.push(event).is_ok()
}

/// Takes an event out of the ring with `rtrb::Consumer::pop`, where there is
/// one.
///
/// What is taken is the next event of the run. While there are events that this
/// end has seen arrive and not taken, there is one. Only where it has taken them
/// all does it look for more, and where none has arrived it takes nothing. Nothing
/// is said of whether more have arrived by then, which depends on the other end.
#[verifier::external_body]
fn pop_event(consumer: &mut Consumer<MidiEvent>) -> (event: Option<MidiEvent>)
    ensures
        waiting_events(*final(consumer)) == waiting_events(*old(consumer)),
        event matches Some(event) ==> polled(*final(consumer)) == polled(*old(consumer)) + 1
            && event == waiting_events(*old(consumer))[polled(*old(consumer)) as int],
        event is None ==> polled(*final(consumer)) == polled(*old(consumer)) && seen(
            *final(consumer),
        ) == polled(*final(consumer)),
        seen(*old(consumer)) <= seen(*final(consumer)),
        polled(*final(consumer)) <= seen(*final(consumer)),
        polled(*old(consumer)) < seen(*old(consumer)) ==> event is Some,
{
    consumer.pop().ok()
}

/// Runs on the driver's own callback thread: decodes one message and puts it into
/// the ring, dropping it rather than waiting where the ring is full. Returns
/// whether an event went in.
pub fn on_midi_message(message: &[u8], producer: &mut Producer<MidiEvent>) -> (queued: bool)
    ensures
        arriving_events(*final(producer)) == arriving_events(*old(producer)),
        event_room(*final(producer)) == event_room(*old(producer)),
        queued ==> decoded(message@) is Some && arrived(*final(producer)) == arrived(
            *old(producer),
        ) + 1 && arriving_events(*old(producer))[arrived(*old(producer)) as int] == decoded(
            message@,
        )->0,
        !queued ==> arrived(*final(producer)) == arrived(*old(producer)),
        event_freed(*old(producer)) <= event_freed(*final(producer)),
        decoded(message@) is Some && arrived(*old(producer)) < event_freed(*old(producer))
            + event_room(*old(producer)) ==> queued,
        decoded(message@) is Some && !queued ==> arrived(*final(producer)) == event_freed(
            *final(producer),
        ) + event_room(*final(producer)),
        decoded(message@) is None ==> *final(producer) == *old(producer),
{
    match MidiEvent::decode(message) {
        Some(event) => push_event(producer, event),
        None => false,
    }
}

/// The receiving side of a live connection to one MIDI input port.
pub struct MidiListener {
    consumer: Consumer<MidiEvent>,
    port_name: String,
}

impl MidiListener {
    /// Every event that ever arrives, by number.
    pub closed spec fn events(self) -> Map<int, MidiEvent> {
        waiting_events(self.consumer)
    }

    /// How many events were taken so far.
    pub closed spec fn polled(self) -> nat {
        polled(self.consumer)
    }

    /// How many events were seen to have arrived so far, taken or not.
    pub closed spec fn seen(self) -> nat {
        seen(self.consumer)
    }

    /// The name of the connected port.
    pub closed spec fn name(self) -> Seq<char> {
        self.port_name@
    }

    /// A listener for the port `port_name`, and the end of the ring the driver's
    /// callback puts its events into.
    pub fn open(port_name: String) -> (ends: (Producer<MidiEvent>, Self))
        ensures
            ends.1.name() == port_name@,
            ends.1.polled() == 0,
            ends.1.seen() == 0,
            arrived(ends.0) == 0,
            event_freed(ends.0) == 0,
            event_room(ends.0) == EVENT_QUEUE_CAPACITY,
            arriving_events(ends.0) == ends.1.events(),
    {
        let (producer, consumer) = new_event_ring(EVENT_QUEUE_CAPACITY);
        (producer, MidiListener { consumer, port_name })
    }

    /// The name of the connected port, for status messages.
    pub fn port_name(&self) -> (name: &str)
        ensures
            name@ == self.name(),
    {
        self.port_name.as_str()
    }

    /// Takes the next waiting event, if any, without blocking: an event that was
    /// seen to have arrived is taken for certain, and nothing is taken only where
    /// every event seen has been.
    pub fn poll(&mut self) -> (event: Option<MidiEvent>)
        ensures
            final(self).events() == old(self).events(),
            final(self).name() == old(self).name(),
            event matches Some(event) ==> final(self).polled() == old(self).polled() + 1 && event
                == old(self).events()[old(self).polled() as int],
            event is None ==> final(self).polled() == old(self).polled() && final(self).seen()
                == final(self).polled(),
            old(self).seen() <= final(self).seen(),
            final(self).polled() <= final(self).seen(),
            old(self).polled() < old(self).seen() ==> event is Some,
    {
        pop_event(&mut self.consumer)
    }
}

/// The events numbered `from..to`.
pub open spec fn event_run(events: Map<int, MidiEvent>, from: int, to: int) -> Seq<MidiEvent> {
    Seq::new((to - from) as nat, |i: int| events[from + i])
}

/// Plays waiting events on `session`, at most [`MAX_EVENTS_PER_TICK`] of them, in
/// the order in which they arrived. It stops short of that many only where every
/// event seen to have arrived is played. What is queued of the commands they mean is
/// queued in that order, and nothing is dropped that there was room for.
pub fn drain_midi(session: &mut AudioSession, listener: &mut MidiListener)
    ensures
        final(listener).events() == old(listener).events(),
        final(listener).name() == old(listener).name(),
        old(listener).polled() <= final(listener).polled() <= old(listener).polled()
            + MAX_EVENTS_PER_TICK,
        old(listener).seen() <= final(listener).seen(),
        final(listener).polled() == final(listener).seen() || final(listener).polled() == old(
            listener,
        ).polled() + MAX_EVENTS_PER_TICK,
        session::sends_all(
            *old(session),
            *final(session),
            commands_for(
                event_run(
                    old(listener).events(),
                    old(listener).polled() as int,
                    final(listener).polled() as int,
                ),
            ),
        ),
{
    let ghost first = listener.polled() as int;
    let ghost events = listener.events();
    let mut played: usize = 0;
    proof {
        assert(event_run(events, first, first) =~= Seq::<MidiEvent>::empty());
        session::lemma_sends_none(*session);
    }
    while played < MAX_EVENTS_PER_TICK
        invariant
            events == old(listener).events(),
            first == old(listener).polled(),
            listener.events() == events,
            listener.name() == old(listener).name(),
            played <= MAX_EVENTS_PER_TICK,
            listener.polled() == first + played,
            old(listener).seen() <= listener.seen(),
            session::sends_all(
                *old(session),
                *session,
                commands_for(event_run(events, first, first + played)),
            ),
        decreases MAX_EVENTS_PER_TICK - played,
    {
        match listener.poll() {
            Some(event) => {
                let ghost before = *session;
                let queued = apply(session, event);
                proof {
                    let run = event_run(events, first, first + played + 1);
                    let earlier = event_run(events, first, first + played);
                    assert(run.drop_last() =~= earlier);
                    assert(run.last() == event);
                    if let Some(command) = command_for(event) {
                        session::lemma_sends_one_more(
                            *old(session),
                            before,
                            *session,
                            commands_for(earlier),
                            command,
                            queued,
                        );
                    }
                }
                played = played + 1;
            },
            None => {
                return;
            },
        }
    }
}

/// The pedal switches between 63 and 64 whether the byte is compared or the
/// fraction it stands for.
pub proof fn pedal_threshold_is_exact(value: DataByte)
    ensures
        value.data >= SUSTAIN_PEDAL_DOWN <==> (DataByte {
            data: SUSTAIN_PEDAL_DOWN,
        }).fraction().at_most(value.fraction()),
{
    rounding::fractions_are_ordered(value.data, SUSTAIN_PEDAL_DOWN);
    rounding::fractions_are_ordered(SUSTAIN_PEDAL_DOWN, value.data);
}

/// A harder touch is a larger velocity: fractions keep the order of their bytes.
pub proof fn fractions_keep_order(softer: DataByte, harder: DataByte)
    requires
        softer.data < harder.data,
    ensures
        softer.fraction().below(harder.fraction()),
{
    rounding::fractions_are_ordered(softer.data, harder.data);
}

/// Every velocity and controller value of a conforming controller arrives inside
/// `[0, 1]`, the lowest as zero and the highest as one.
pub proof fn fractions_stay_in_range(value: DataByte)
    requires
        value.data <= 127,
    ensures
        string::is_normalised(value.fraction()),
        value.data == 0 ==> value.fraction() == Binary32::from_bits(0),
        value.data == 127 ==> value.fraction() == Binary32::from_bits(ONE_BITS),
{
    rounding::fraction_extremes();
    rounding::fractions_are_ordered(0, value.data);
    rounding::fractions_are_ordered(value.data, 127);
}

} // verus!
