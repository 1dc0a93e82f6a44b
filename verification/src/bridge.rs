//! The shared bridge bus, through which every string hears every other one.
//!
//! Strings do not couple to each other directly: each couples to the bridge,
//! whose motion is the sum of what every string puts into it. So every string
//! adds to one running total per sample and reads back the total of the block
//! before, together with how many strings went into it. Reading back the
//! *average* of a finished block keeps the coupling bounded however many
//! strings take part.
use vstd::prelude::*;

verus! {

/// One sample's running total and how many strings have added to it.
#[derive(Debug, Clone, Copy)]
pub struct Slot<T> {
    /// The sum of all contributions.
    pub sum: T,
    /// The number of contributions.
    pub count: u32,
}

/// Two blocks of running totals: the one being filled, and the one before it.
#[derive(Debug, Clone)]
pub struct BridgeBus<T> {
    current: Vec<Slot<T>>,
    previous: Vec<Slot<T>>,
    silence: T,
}

/// A block nobody has added to yet.
pub open spec fn untouched<T>(length: nat, silence: T) -> Seq<Slot<T>> {
    Seq::new(length, |index: int| Slot { sum: silence, count: 0 })
}

/// What everybody put in at `index` during the block before; nothing where
/// nobody did.
pub open spec fn finished<T: Copy>(bus: BridgeBus<T>, index: usize) -> Option<Slot<T>> {
    if index < bus.previous().len() && bus.previous()[index as int].count > 0 {
        Some(bus.previous()[index as int])
    } else {
        None
    }
}

/// `after` is `before` with `contribution` added, by `plus`, at `index`, and
/// counted as one contributor. Beyond the block's end nothing is added.
pub open spec fn added<T: Copy, F: Fn(T, T) -> T>(
    before: BridgeBus<T>,
    after: BridgeBus<T>,
    index: usize,
    contribution: T,
    plus: F,
) -> bool {
    &&& after.silence() == before.silence()
    &&& after.previous() == before.previous()
    &&& after.current().len() == before.current().len()
    &&& forall|i: int|
        0 <= i < before.current().len() && i != index ==> #[trigger] after.current()[i]
            == before.current()[i]
    &&& index < before.current().len() ==> {
        &&& after.current()[index as int].count == before.current()[index as int].count + 1
        &&& plus.ensures(
            (before.current()[index as int].sum, contribution),
            after.current()[index as int].sum,
        )
    }
}

/// `after` is `before` at the start of a new block: what was being filled is read
/// back, and nobody has added to the new block yet.
pub open spec fn is_begun<T: Copy>(before: BridgeBus<T>, after: BridgeBus<T>) -> bool {
    &&& after.silence() == before.silence()
    &&& after.previous() == before.current()
    &&& after.current() == untouched(before.current().len(), before.silence())
}

/// Two buses hold the same.
pub open spec fn is_alike<T: Copy>(one: BridgeBus<T>, other: BridgeBus<T>) -> bool {
    &&& one.silence() == other.silence()
    &&& one.previous() == other.previous()
    &&& one.current() == other.current()
}

/// Somebody was counted at `index`, and nobody anywhere else.
pub open spec fn is_counted_once<T: Copy>(
    before: BridgeBus<T>,
    after: BridgeBus<T>,
    index: usize,
) -> bool {
    &&& after.current().len() == before.current().len()
    &&& forall|i: int|
        0 <= i < before.current().len() ==> (#[trigger] after.current()[i]).count
            == before.current()[i].count + if i == index {
            1int
        } else {
            0
        }
}

impl<T: Copy> BridgeBus<T> {
    /// Both blocks have the same length, at least one sample.
    pub closed spec fn wf(&self) -> bool {
        self.current@.len() == self.previous@.len() >= 1
    }

    /// The block being filled.
    pub closed spec fn current(&self) -> Seq<Slot<T>> {
        self.current@
    }

    /// The block filled before it.
    pub closed spec fn previous(&self) -> Seq<Slot<T>> {
        self.previous@
    }

    /// The sum of no contributions.
    pub closed spec fn silence(&self) -> T {
        self.silence
    }

    /// Allocates a bus able to accumulate a block of up to `capacity` samples.
    /// `capacity` is floored at one rather than rejected.
    pub fn with_capacity(capacity: usize, silence: T) -> (bus: Self)
        ensures
            bus.wf(),
            bus.silence() == silence,
            bus.current() == untouched(
                if capacity == 0 {
                    1
                } else {
                    capacity as nat
                },
                silence,
            ),
            bus.previous() == bus.current(),
    {
        let length: usize = if capacity == 0 {
            1
        } else {
            capacity
        };
        let mut current: Vec<Slot<T>> = Vec::with_capacity(length);
        let mut previous: Vec<Slot<T>> = Vec::with_capacity(length);
        while current.len() < length
            invariant
                current@.len() == previous@.len() <= length,
                current@ == untouched(current@.len(), silence),
                previous@ == current@,
            decreases length - current@.len(),
        {
            current.push(Slot { sum: silence, count: 0 });
            previous.push(Slot { sum: silence, count: 0 });
        }
        BridgeBus { current, previous, silence }
    }

    /// How many samples of one block this bus can accumulate.
    pub fn capacity(&self) -> (capacity: usize)
        requires
            self.wf(),
        ensures
            capacity == self.current().len(),
            capacity == self.previous().len(),
            capacity >= 1,
    {
        self.current.len()
    }

    /// Starts a new block: the block just finished becomes what every string
    /// reads back, and the new block's totals and counts start from nothing.
    pub fn begin_block(&mut self)
        requires
            old(self).wf(),
        ensures
            final(self).wf(),
            is_begun(*old(self), *final(self)),
    {
        std::mem::swap(&mut self.current, &mut self.previous);
        let silence = self.silence;
        let mut index: usize = 0;
        while index < self.current.len()
            invariant
                self.current@.len() == old(self).current@.len(),
                self.current@.len() == self.previous@.len() >= 1,
                self.previous@ == old(self).current@,
                self.silence == silence,
                silence == old(self).silence,
                index <= self.current@.len(),
                forall|i: int|
                    0 <= i < index ==> self.current@[i] == (Slot { sum: silence, count: 0 }),
            decreases self.current@.len() - index,
        {
            self.current.set(index, Slot { sum: silence, count: 0 });
            index = index + 1;
        }
        assert(self.current@ =~= untouched(self.current@.len(), silence));
    }

    /// Adds `contribution` into the running total at `index`, counting it as
    /// one contributor, and returns what everyone put in at `index` during the
    /// block before: the total and the number of contributors, for the caller
    /// to average. `None` when nobody contributed.
    ///
    /// An `index` at or beyond the capacity is dropped and reads nothing: no
    /// coupling for samples beyond the provisioned block.
    pub fn add_and_read<F: Fn(T, T) -> T>(
        &mut self,
        index: usize,
        contribution: T,
        plus: &F,
    ) -> (readback: Option<Slot<T>>)
        requires
            old(self).wf(),
            forall|total: T, addend: T| plus.requires((total, addend)),
            index < old(self).current().len() ==> old(self).current()[index as int].count
                < u32::MAX,
        ensures
            final(self).wf(),
            added(*old(self), *final(self), index, contribution, *plus),
            readback == finished(*old(self), index),
    {
        if index >= self.current.len() {
            return None;
        }
        let slot = self.current[index];
        self.current.set(
            index,
            Slot { sum: plus(slot.sum, contribution), count: slot.count + 1 },
        );
        let finished = self.previous[index];
        if finished.count == 0 {
            None
        } else {
            Some(finished)
        }
    }
}

/// How many of `contributions` are made at `index`.
pub open spec fn made_at<T>(contributions: Seq<(usize, T)>, index: usize) -> nat
    decreases contributions.len(),
{
    if contributions.len() == 0 {
        0
    } else if contributions.last().0 == index {
        made_at(contributions.drop_last(), index) + 1
    } else {
        made_at(contributions.drop_last(), index)
    }
}

/// `total` is what the contributions made at `index` come to, added up by `plus` in
/// the order they were made.
pub open spec fn is_total<T, F: Fn(T, T) -> T>(
    contributions: Seq<(usize, T)>,
    index: usize,
    silence: T,
    plus: F,
    total: T,
) -> bool
    decreases contributions.len(),
{
    if contributions.len() == 0 {
        total == silence
    } else if contributions.last().0 == index {
        exists|before: T|
            {
                &&& #[trigger] is_total(contributions.drop_last(), index, silence, plus, before)
                &&& plus.ensures((before, contributions.last().1), total)
            }
    } else {
        is_total(contributions.drop_last(), index, silence, plus, total)
    }
}

/// `buses` are the states of a bus over one block, from its start through all of
/// `contributions`.
pub open spec fn is_block<T: Copy, F: Fn(T, T) -> T>(
    buses: Seq<BridgeBus<T>>,
    contributions: Seq<(usize, T)>,
    plus: F,
) -> bool {
    &&& buses.len() == contributions.len() + 1
    &&& buses[0].current() == untouched(buses[0].current().len(), buses[0].silence())
    &&& forall|i: int|
        0 <= i < contributions.len() ==> added(
            buses[i],
            buses[i + 1],
            contributions[i].0,
            (#[trigger] contributions[i]).1,
            plus,
        )
}

/// What is put into a block is read back in the next one and not before: while a
/// block lasts, its own contributions change nothing that is read back, and once it
/// is over every place holds exactly what was put in there, counted and added up.
pub proof fn contributions_are_heard_one_block_later<T: Copy, F: Fn(T, T) -> T>(
    buses: Seq<BridgeBus<T>>,
    contributions: Seq<(usize, T)>,
    plus: F,
    next: BridgeBus<T>,
    index: usize,
)
    requires
        is_block(buses, contributions, plus),
        next.previous() == buses.last().current(),
    ensures
        finished(buses.last(), index) == finished(buses[0], index),
        finished(next, index) is Some <==> index < buses[0].current().len() && made_at(
            contributions,
            index,
        ) > 0,
        finished(next, index) matches Some(slot) ==> slot.count == made_at(contributions, index)
            && is_total(contributions, index, buses[0].silence(), plus, slot.sum),
{
    lemma_block_adds_up(buses, contributions, plus, index);
}

/// What a block holds at its end.
proof fn lemma_block_adds_up<T: Copy, F: Fn(T, T) -> T>(
    buses: Seq<BridgeBus<T>>,
    contributions: Seq<(usize, T)>,
    plus: F,
    index: usize,
)
    requires
        is_block(buses, contributions, plus),
    ensures
        buses.last().previous() == buses[0].previous(),
        buses.last().current().len() == buses[0].current().len(),
        index < buses[0].current().len() ==> {
            &&& buses.last().current()[index as int].count == made_at(contributions, index)
            &&& is_total(
                contributions,
                index,
                buses[0].silence(),
                plus,
                buses.last().current()[index as int].sum,
            )
        },
    decreases contributions.len(),
{
    if contributions.len() > 0 {
        let last = contributions.len() - 1;
        let shorter = contributions.drop_last();
        let earlier = buses.drop_last();
        assert forall|i: int| 0 <= i < shorter.len() implies added(
            earlier[i],
            earlier[i + 1],
            shorter[i].0,
            (#[trigger] shorter[i]).1,
            plus,
        ) by {
            assert(shorter[i] == contributions[i]);
        }
        lemma_block_adds_up(earlier, shorter, plus, index);
        assert(contributions[last] == contributions.last());
        assert(added(
            buses[last],
            buses[last + 1],
            contributions[last].0,
            contributions[last].1,
            plus,
        ));
        assert(earlier.last() == buses[last]);
        if index < buses[0].current().len() {
            let before = buses[last].current()[index as int].sum;
            assert(is_total(shorter, index, buses[0].silence(), plus, before));
            if contributions.last().0 != index {
                assert(buses[last + 1].current()[index as int]
                    == buses[last].current()[index as int]);
            }
        }
    }
}

/// A block leaves nothing behind beyond the next one: where nobody puts anything
/// into the block after it, the block after that reads nothing back.
pub proof fn nothing_lingers<T: Copy>(
    idle: BridgeBus<T>,
    next: BridgeBus<T>,
    silence: T,
    index: usize,
)
    requires
        idle.current() == untouched(idle.current().len(), silence),
        next.previous() == idle.current(),
    ensures
        finished(next, index) is None,
{
}

} // verus!
