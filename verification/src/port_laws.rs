//! Which port is listened to, and how long it is looked for.
use crate::ports;
use crate::ports::{MidiError, Retry, Verdict};
use vstd::prelude::*;

verus! {

/// A port is chosen by the filter, and it is the first that matches: no port before it
/// does, it does, and where none does none is chosen and all are named.
pub proof fn the_first_matching_port_is_chosen(
    names: &Vec<String>,
    filter: Option<&str>,
    result: Result<usize, MidiError>,
    place: int,
    name: &str,
    matches_it: bool,
)
    requires
        call_ensures(ports::select_index, (names, filter), result),
        0 <= place < names@.len(),
        name@ == names@[place]@,
        call_ensures(ports::matches_filter, (name, filter), matches_it),
    ensures
        result is Ok && place == result->Ok_0 ==> matches_it,
        result is Ok && place < result->Ok_0 ==> !matches_it,
        result is Err
            ==> !matches_it && result->Err_0 is NoMatchingPort
                && result->Err_0->available@ == names@,
        filter is None ==> result == Ok::<usize, MidiError>(0),
{
    assert(filter is None ==> ports::chosen(names@[0]@, filter));
}

/// Attempts last as long as the timeout: all but the last of them, a quarter of a
/// second apart, fit into it, and one more would not.
pub proof fn attempts_last_as_long_as_the_timeout(
    millis: u128,
    attempts: u32,
)
    requires
        millis < 250 * 0xffff_ffff,
        call_ensures(ports::attempts_for, (millis,), attempts),
    ensures
        attempts >= 1,
        250 * (attempts - 1) <= millis < 250 * attempts,
{
}

/// A search goes on only while no port is there and attempts are left; anything else
/// ends it, with the outcome as it is. A search without attempts finds nothing.
pub proof fn searches_wait_for_absent_ports_alone<
    T,
>(
    before: Retry,
    after: Retry,
    outcome: Result<T, MidiError>,
    verdict: Verdict<T>,
    none: Result<Retry, MidiError>,
    some: Result<Retry, MidiError>,
    attempts: u32,
)
    requires
        before.left() > 0,
        attempts > 0,
        exists|retry: &mut Retry| #[trigger]
            call_ensures(Retry::after_attempt::<T>, (retry, outcome), verdict)
                && *retry == before && *final(retry) == after,
        call_ensures(Retry::new, (0u32,), none),
        call_ensures(Retry::new, (attempts,), some),
    ensures
        verdict == Verdict::<T>::WaitAndRetry
            <==> before.left() > 1 && outcome is Err
                && (outcome->Err_0 is NoPortsAvailable || outcome->Err_0 is NoMatchingPort),
        verdict != Verdict::<T>::WaitAndRetry ==> verdict == Verdict::Finished(outcome),
        after.left() == before.left() - 1,
        none == Err::<Retry, MidiError>(MidiError::NoPortsAvailable),
        some is Ok && some->Ok_0.left() == attempts,
{
}

/// `whole` is `before`, `part` and `after`, one behind the other.
pub open spec fn surrounds(
    before: Seq<char>,
    part: Seq<char>,
    after: Seq<char>,
    whole: Seq<char>,
) -> bool {
    whole == before + part + after
}

proof fn lemma_listed(ports: Seq<String>, place: int) -> (around: (Seq<char>, Seq<char>))
    requires
        0 <= place < ports.len(),
    ensures
        ports::listed(ports) == around.0 + ("\n  "@ + ports[place]@) + around.1,
    decreases ports.len(),
{
    let last = "\n  "@ + ports.last()@;
    let shorter = ports::listed(ports.drop_last());
    if place == ports.len() - 1 {
        assert(ports::listed(ports) =~= shorter + last + Seq::<char>::empty());
        (shorter, Seq::empty())
    } else {
        let (before, after) = lemma_listed(ports.drop_last(), place);
        let line = "\n  "@ + ports[place]@;
        assert(ports.drop_last()[place] == ports[place]);
        assert(ports::listed(ports) =~= before + line + (after + last));
        (before, after + last)
    }
}

/// Every port is listed, on a line of its own, whatever its place in the list.
pub proof fn every_port_is_listed(
    ports: &Vec<String>,
    listing: String,
    place: int,
    line: Seq<char>,
)
    requires
        call_ensures(ports::format_port_list, (ports,), listing),
        0 <= place < ports@.len(),
        line == seq!['\n', ' ', ' '] + ports@[place]@,
    ensures
        exists|before: Seq<char>, after: Seq<char>| #[trigger]
            surrounds(before, line, after, listing@),
{
    reveal_strlit("\n  ");
    assert("\n  "@ =~= seq!['\n', ' ', ' ']);
    let (before, after) = lemma_listed(ports@, place);
    let heading = "available MIDI input ports:"@;
    assert(surrounds(heading + before, "\n  "@ + ports@[place]@, after, listing@)) by {
        assert(heading + before + ("\n  "@ + ports@[place]@) + after =~= heading + (before + (
        "\n  "@ + ports@[place]@) + after));
    }
}

/// Only what may come of itself is waited for: that no port is there yet, or none that
/// matches.
pub proof fn only_absent_ports_are_waited_for(
    error: &MidiError,
    absent: bool,
)
    requires
        call_ensures(MidiError::is_port_absent, (error,), absent),
    ensures
        absent <==> *error is NoPortsAvailable || *error is NoMatchingPort,
{
}

} // verus!
