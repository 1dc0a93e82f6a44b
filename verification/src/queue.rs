//! The lock-free ring that carries commands from a control thread to the audio
//! thread.
//!
//! A ring has two ends, each owned by one thread. What one end sees of the ring
//! changes under it at any moment, so contracts speak of each end's own history:
//! how many commands have gone through it, and which, and how far it has seen the
//! other end come. The stream of a ring is every command it ever accepts, by
//! number; both ends share it, which is what makes it a queue.
use crate::commands::Command;
use rtrb::{Consumer, Producer, RingBuffer};
use vstd::prelude::*;

verus! {

/// The sending end of a ring of the `rtrb` crate.
#[verifier::external_type_specification]
#[verifier::external_body]
#[verifier::reject_recursive_types(T)]
pub struct ExProducer<T>(rtrb::Producer<T>);

/// The receiving end of a ring of the `rtrb` crate.
#[verifier::external_type_specification]
#[verifier::external_body]
#[verifier::reject_recursive_types(T)]
pub struct ExConsumer<T>(rtrb::Consumer<T>);

/// Every command the ring behind `producer` ever accepts, by number.
pub uninterp spec fn sending_stream(producer: Producer<Command>) -> Map<int, Command>;

/// How many commands `producer` has sent so far.
pub uninterp spec fn sent(producer: Producer<Command>) -> nat;

/// How many of them `producer` has seen taken out at the other end so far: it looks
/// afresh where the ring would otherwise be full.
pub uninterp spec fn freed(producer: Producer<Command>) -> nat;

/// How many commands the ring behind `producer` holds at most.
pub uninterp spec fn room(producer: Producer<Command>) -> nat;

/// Every command the ring behind `consumer` ever accepts, by number.
pub uninterp spec fn receiving_stream(consumer: Consumer<Command>) -> Map<int, Command>;

/// How many commands `consumer` has taken so far.
pub uninterp spec fn taken(consumer: Consumer<Command>) -> nat;

/// How many commands `consumer` has seen sent so far, taken or not: it looks afresh
/// where it has taken all that it saw.
pub uninterp spec fn seen(consumer: Consumer<Command>) -> nat;

/// Makes a ring with `rtrb::RingBuffer::new`.
///
/// It holds up to `capacity` commands, nothing has gone through either end or been
/// seen there, and the two ends share one stream. The bound keeps the allocation
/// small enough to be made at all.
#[verifier::external_body]
pub(crate) fn new_ring(capacity: usize) -> (ends: (Producer<Command>, Consumer<Command>))
    requires
        capacity <= 0x1_0000,
    ensures
        sent(ends.0) == 0,
        freed(ends.0) == 0,
        room(ends.0) == capacity,
        taken(ends.1) == 0,
        seen(ends.1) == 0,
        sending_stream(ends.0) == receiving_stream(ends.1),
{
    RingBuffer::new(capacity)
}

/// Sends a command with `rtrb::Producer::push`, and says whether there was room.
///
/// A command that was sent is the next one of the stream. While fewer commands than
/// the ring holds have been sent beyond those that this end has seen taken, there
/// is room. Only then does it look for more that were taken, and where the ring is
/// still full the command is dropped.
///
/// Whether more have been taken by then depends on the other end, and nothing is
/// said of it here.
#[verifier::external_body]
pub(crate) fn push(producer: &mut Producer<Command>, command: Command) -> (queued: bool)
    ensures
        sending_stream(*final(producer)) == sending_stream(*old(producer)),
        room(*final(producer)) == room(*old(producer)),
        queued ==> sent(*final(producer)) == sent(*old(producer)) + 1 && sending_stream(
            *final(producer),
        )[sent(*old(producer)) as int] == command,
        !queued ==> sent(*final(producer)) == sent(*old(producer)) && sent(*final(producer))
            == freed(*final(producer)) + room(*final(producer)),
        freed(*old(producer)) <= freed(*final(producer)) <= sent(*final(producer)),
        sent(*old(producer)) < freed(*old(producer)) + room(*old(producer)) ==> queued,
{
    producer.push(command).is_ok()
}

/// Takes a command with `rtrb::Consumer::pop`, where there is one.
///
/// What is taken is the next command of the stream. While there are commands that
/// this end has seen sent and not taken, there is one. Only where it has taken them
/// all does it look for more, and where none was sent it takes nothing.
///
/// Whether more have been sent by then depends on the other end, and nothing is
/// said of it here.
#[verifier::external_body]
pub(crate) fn pop(consumer: &mut Consumer<Command>) -> (command: Option<Command>)
    ensures
        receiving_stream(*final(consumer)) == receiving_stream(*old(consumer)),
        command matches Some(command) ==> taken(*final(consumer)) == taken(*old(consumer)) + 1
            && command == receiving_stream(*old(consumer))[taken(*old(consumer)) as int],
        command is None ==> taken(*final(consumer)) == taken(*old(consumer)) && seen(
            *final(consumer),
        ) == taken(*final(consumer)),
        seen(*old(consumer)) <= seen(*final(consumer)),
        taken(*final(consumer)) <= seen(*final(consumer)),
        taken(*old(consumer)) < seen(*old(consumer)) ==> command is Some,
{
    consumer.pop().ok()
}

} // verus!
