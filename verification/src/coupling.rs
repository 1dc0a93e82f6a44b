//! How the strings of one note hear each other, and the bridge.
//!
//! Only a string whose damper is lifted takes part: it adds to what the note
//! gives the bridge, it hears the note's other strings, and the bridge drives
//! it. A damped string neither gives nor takes, whatever the arithmetic of the
//! samples: felt blocks vibration wherever it comes from.
//!
//! The two couplings mix differently. The strings of one note are so close to
//! each other that a string's own signal is *blended* with the mean of the
//! others. The bridge is a block old and a mean over every note, so blending
//! with it would charge a string for its neighbours' silence; it is *added*
//! instead, and costs nothing while it drives nothing.
use crate::binary32::Binary32;
use crate::bridge;
use crate::bridge::BridgeBus;
use crate::outcome;
use crate::unison::UnisonGroup;
use vstd::prelude::*;

verus! {

/// What one string writes back into its loop.
#[derive(Debug, Clone, Copy, PartialEq, Eq)]
pub struct Feedback<T> {
    /// The string's own signal, blended with that of the note's other strings.
    pub mixed: T,
    /// What the bridge drives into the string on top of it.
    pub coupling: T,
}

/// String `index` of `group` takes part: the group has it, and its damper is
/// lifted.
pub open spec fn takes_part(group: UnisonGroup, index: int) -> bool {
    group.at(index) matches Some(string) && !string.damper_engaged
}

/// How many of the first `length` strings take part.
pub open spec fn receptive_among(group: UnisonGroup, length: int) -> int
    decreases length,
{
    if length <= 0 {
        0
    } else {
        receptive_among(group, length - 1) + if takes_part(group, length - 1) {
            1int
        } else {
            0
        }
    }
}

/// `total` is the sum, by `plus`, of what the first `length` strings give,
/// beginning with `silence`.
pub open spec fn sums_to<T, P: Fn(T, T) -> T>(
    group: UnisonGroup,
    signals: Seq<T>,
    length: int,
    silence: T,
    plus: P,
    total: T,
) -> bool
    decreases length,
{
    if length <= 0 {
        total == silence
    } else if takes_part(group, length - 1) {
        exists|before: T|
            sums_to(group, signals, length - 1, silence, plus, before)
                && #[trigger] plus.ensures((before, signals[length - 1]), total)
    } else {
        sums_to(group, signals, length - 1, silence, plus, total)
    }
}

/// `mean` is the mean of `count` signals that add up to `sum`; silence where
/// there are none.
pub open spec fn is_mean<T, Q: Fn(T, usize) -> T>(
    sum: T,
    count: usize,
    silence: T,
    quotient: Q,
    mean: T,
) -> bool {
    if count == 0 {
        mean == silence
    } else {
        quotient.ensures((sum, count), mean)
    }
}

/// `mean` is the mean of all signals but `own`, of `count` that add up to `sum`;
/// `own` itself where there is no other.
pub open spec fn is_others_mean<T, M: Fn(T, T) -> T, Q: Fn(T, usize) -> T>(
    sum: T,
    own: T,
    count: usize,
    minus: M,
    quotient: Q,
    mean: T,
) -> bool {
    if count <= 1 {
        mean == own
    } else {
        exists|rest: T| #[trigger]
            minus.ensures((sum, own), rest) && quotient.ensures((rest, (count - 1) as usize), mean)
    }
}

/// `mixed` is `own` blended, by `gain`, with the mean of the note's other
/// strings.
pub open spec fn is_blended<T, M: Fn(T, T) -> T, Q: Fn(T, usize) -> T, B: Fn(T, T, Binary32) -> T>(
    sum: T,
    own: T,
    count: usize,
    gain: Binary32,
    minus: M,
    quotient: Q,
    blend: B,
    mixed: T,
) -> bool {
    exists|mean: T| #[trigger]
        is_others_mean(sum, own, count, minus, quotient, mean) && blend.ensures(
            (own, mean, gain),
            mixed,
        )
}

/// Adds up what a note's receptive strings give, and counts them.
pub fn local_sum<T: Copy, P: Fn(T, T) -> T>(
    group: &UnisonGroup,
    signals: &[T],
    silence: T,
    plus: &P,
) -> (sum: (T, usize))
    requires
        group.count() <= signals@.len(),
        forall|total: T, addend: T| plus.requires((total, addend)),
    ensures
        sums_to(*group, signals@, group.count(), silence, *plus, sum.0),
        sum.1 == receptive_among(*group, group.count()),
{
    let mut total = silence;
    let mut count: usize = 0;
    let strings = group.len();
    let mut index: usize = 0;
    while index < strings
        invariant
            strings == group.count() <= signals@.len(),
            forall|total: T, addend: T| plus.requires((total, addend)),
            index <= strings,
            sums_to(*group, signals@, index as int, silence, *plus, total),
            count == receptive_among(*group, index as int),
            count <= index,
        decreases strings - index,
    {
        if is_receptive_string(group, index) {
            total = plus(total, signals[index]);
            count = count + 1;
        }
        index = index + 1;
    }
    (total, count)
}

/// Whether string `index` of `group` takes part in the coupling.
pub fn is_receptive_string(group: &UnisonGroup, index: usize) -> (receptive: bool)
    ensures
        receptive == takes_part(*group, index as int),
{
    match group.string(index) {
        Some(string) => !string.damper_engaged(),
        None => false,
    }
}

/// The mean of what a note's `receptive_count` receptive strings give, which is
/// what the note gives the bridge; silence where none is receptive.
pub fn local_group_mean<T: Copy, Q: Fn(T, usize) -> T>(
    sum: T,
    receptive_count: usize,
    silence: T,
    quotient: &Q,
) -> (mean: T)
    requires
        forall|total: T, count: usize| count > 0 ==> quotient.requires((total, count)),
    ensures
        is_mean(sum, receptive_count, silence, *quotient, mean),
{
    if receptive_count == 0 {
        silence
    } else {
        quotient(sum, receptive_count)
    }
}

/// The mean of what a note's *other* receptive strings give; `own` where there is
/// no other, so that blending with it changes nothing.
pub fn other_strings_mean<T: Copy, M: Fn(T, T) -> T, Q: Fn(T, usize) -> T>(
    sum: T,
    own: T,
    receptive_count: usize,
    minus: &M,
    quotient: &Q,
) -> (mean: T)
    requires
        forall|total: T, part: T| minus.requires((total, part)),
        forall|total: T, count: usize| count > 0 ==> quotient.requires((total, count)),
    ensures
        is_others_mean(sum, own, receptive_count, *minus, *quotient, mean),
{
    if receptive_count <= 1 {
        own
    } else {
        let rest = minus(sum, own);
        quotient(rest, receptive_count - 1)
    }
}

/// `feedback` is what every string of `group` writes back for one sample, with only
/// the group's own strings to hear.
pub open spec fn is_coupled<
    T,
    P: Fn(T, T) -> T,
    M: Fn(T, T) -> T,
    Q: Fn(T, usize) -> T,
    B: Fn(T, T, Binary32) -> T,
>(
    group: UnisonGroup,
    signals: Seq<T>,
    silence: T,
    plus: P,
    minus: M,
    quotient: Q,
    blend: B,
    feedback: Seq<Feedback<T>>,
) -> bool {
    exists|sum: T|
        {
            &&& #[trigger] sums_to(group, signals, group.count(), silence, plus, sum)
            &&& forall|i: int|
                0 <= i < group.count() ==> {
                    &&& (#[trigger] feedback[i]).coupling == silence
                    &&& group.mixes(signals, i, sum, minus, quotient, blend, feedback[i].mixed)
                }
        }
}

/// `coupling` is what a bridge heard as `heard` drives into string `index`.
pub open spec fn is_driven<T, D: Fn(T, Binary32) -> T>(
    group: UnisonGroup,
    index: int,
    heard: T,
    silence: T,
    drive: D,
    coupling: T,
) -> bool {
    if takes_part(group, index) {
        drive.ensures((heard, group.global_coupling_gain), coupling)
    } else {
        coupling == silence
    }
}

/// `feedback` is what every string of `group` writes back for one sample, with the
/// group's own strings and the bridge to hear. What the group gives takes the bridge
/// from `before` to `after`.
pub open spec fn is_coupled_with_bridge<
    T: Copy,
    P: Fn(T, T) -> T,
    M: Fn(T, T) -> T,
    Q: Fn(T, usize) -> T,
    B: Fn(T, T, Binary32) -> T,
    D: Fn(T, Binary32) -> T,
>(
    group: UnisonGroup,
    signals: Seq<T>,
    silence: T,
    before: BridgeBus<T>,
    index: usize,
    plus: P,
    minus: M,
    quotient: Q,
    blend: B,
    drive: D,
    after: BridgeBus<T>,
    feedback: Seq<Feedback<T>>,
) -> bool {
    exists|sum: T, given: T, heard: T|
        {
            &&& #[trigger] sums_to(group, signals, group.count(), silence, plus, sum)
            &&& #[trigger] is_mean(
                sum,
                receptive_among(group, group.count()) as usize,
                silence,
                quotient,
                given,
            )
            &&& bridge::added(before, after, index, given, plus)
            &&& #[trigger] is_heard(before, index, silence, quotient, heard)
            &&& forall|i: int|
                0 <= i < group.count() ==> {
                    &&& group.mixes(
                        signals,
                        i,
                        sum,
                        minus,
                        quotient,
                        blend,
                        (#[trigger] feedback[i]).mixed,
                    )
                    &&& is_driven(group, i, heard, silence, drive, feedback[i].coupling)
                }
        }
}

impl UnisonGroup {
    /// Works out what every string of the group writes back for one sample, with
    /// only the group's own strings to hear. The first places of `signals` hold what
    /// each string read at the bridge end, after its own filters; those of `feedback`
    /// take what each writes back.
    pub fn process<
        T: Copy,
        P: Fn(T, T) -> T,
        M: Fn(T, T) -> T,
        Q: Fn(T, usize) -> T,
        B: Fn(T, T, Binary32) -> T,
    >(
        &self,
        signals: &[T],
        silence: T,
        feedback: &mut [Feedback<T>],
        plus: &P,
        minus: &M,
        quotient: &Q,
        blend: &B,
    )
        requires
            self.count() <= signals@.len(),
            self.count() <= old(feedback)@.len(),
            forall|total: T, addend: T| plus.requires((total, addend)),
            forall|total: T, part: T| minus.requires((total, part)),
            forall|total: T, count: usize| count > 0 ==> quotient.requires((total, count)),
            forall|own: T, other: T, gain: Binary32| blend.requires((own, other, gain)),
        ensures
            final(feedback)@.len() == old(feedback)@.len(),
            forall|i: int|
                self.count() <= i < final(feedback)@.len() ==> #[trigger] final(feedback)@[i]
                    == old(feedback)@[i],
            is_coupled(
                *self,
                signals@,
                silence,
                *plus,
                *minus,
                *quotient,
                *blend,
                final(feedback)@,
            ),
    {
        let (sum, count) = local_sum(self, signals, silence, plus);
        let strings = self.len();
        let mut index: usize = 0;
        while index < strings
            invariant
                strings == self.count() <= signals@.len(),
                feedback@.len() == old(feedback)@.len(),
                strings <= feedback@.len(),
                forall|total: T, part: T| minus.requires((total, part)),
                forall|total: T, count: usize| count > 0 ==> quotient.requires((total, count)),
                forall|own: T, other: T, gain: Binary32| blend.requires((own, other, gain)),
                count == receptive_among(*self, self.count()),
                index <= strings,
                forall|i: int|
                    0 <= i < index ==> {
                        &&& (#[trigger] feedback@[i]).coupling == silence
                        &&& self.mixes(signals@, i, sum, *minus, *quotient, *blend, feedback@[i].mixed)
                    },
                forall|i: int|
                    index <= i < feedback@.len() ==> #[trigger] feedback@[i] == old(feedback)@[i],
            decreases strings - index,
        {
            let mixed = self.mix(signals, index, sum, count, minus, quotient, blend);
            feedback[index] = Feedback { mixed, coupling: silence };
            index = index + 1;
        }
    }

    /// Works out what every string of the group writes back for one sample, with
    /// the group's own strings and the bridge to hear. What the group gives goes
    /// into the bridge's block at `bridge_index`; what the block before had there
    /// comes back and drives every receptive string. The places of `signals` and
    /// `feedback` are those of [`UnisonGroup::process`].
    pub fn process_with_bridge<
        T: Copy,
        P: Fn(T, T) -> T,
        M: Fn(T, T) -> T,
        Q: Fn(T, usize) -> T,
        B: Fn(T, T, Binary32) -> T,
        D: Fn(T, Binary32) -> T,
    >(
        &self,
        signals: &[T],
        silence: T,
        bridge: &mut BridgeBus<T>,
        bridge_index: usize,
        feedback: &mut [Feedback<T>],
        plus: &P,
        minus: &M,
        quotient: &Q,
        blend: &B,
        drive: &D,
    )
        requires
            self.count() <= signals@.len(),
            self.count() <= old(feedback)@.len(),
            old(bridge).wf(),
            bridge_index < old(bridge).current().len() ==> old(
                bridge,
            ).current()[bridge_index as int].count < u32::MAX,
            forall|total: T, addend: T| plus.requires((total, addend)),
            forall|total: T, part: T| minus.requires((total, part)),
            forall|total: T, count: usize| count > 0 ==> quotient.requires((total, count)),
            forall|own: T, other: T, gain: Binary32| blend.requires((own, other, gain)),
            forall|signal: T, gain: Binary32| drive.requires((signal, gain)),
        ensures
            final(bridge).wf(),
            final(feedback)@.len() == old(feedback)@.len(),
            forall|i: int|
                self.count() <= i < final(feedback)@.len() ==> #[trigger] final(feedback)@[i]
                    == old(feedback)@[i],
            is_coupled_with_bridge(
                *self,
                signals@,
                silence,
                *old(bridge),
                bridge_index,
                *plus,
                *minus,
                *quotient,
                *blend,
                *drive,
                *final(bridge),
                final(feedback)@,
            ),
    {
        let (sum, count) = local_sum(self, signals, silence, plus);
        let given = local_group_mean(sum, count, silence, quotient);
        let heard = match bridge.add_and_read(bridge_index, given, plus) {
            Some(slot) => quotient(slot.sum, slot.count as usize),
            None => silence,
        };
        assert(is_heard(*old(bridge), bridge_index, silence, *quotient, heard));
        assert(is_mean(
            sum,
            receptive_among(*self, self.count()) as usize,
            silence,
            *quotient,
            given,
        ));
        assert(bridge::added(*old(bridge), *bridge, bridge_index, given, *plus));
        let strings = self.len();
        let mut index: usize = 0;
        while index < strings
            invariant
                strings == self.count() <= signals@.len(),
                feedback@.len() == old(feedback)@.len(),
                strings <= feedback@.len(),
                forall|total: T, part: T| minus.requires((total, part)),
                forall|total: T, count: usize| count > 0 ==> quotient.requires((total, count)),
                forall|own: T, other: T, gain: Binary32| blend.requires((own, other, gain)),
                forall|signal: T, gain: Binary32| drive.requires((signal, gain)),
                count == receptive_among(*self, self.count()),
                index <= strings,
                forall|i: int|
                    0 <= i < index ==> {
                        &&& self.mixes(
                            signals@,
                            i,
                            sum,
                            *minus,
                            *quotient,
                            *blend,
                            (#[trigger] feedback@[i]).mixed,
                        )
                        &&& is_driven(*self, i, heard, silence, *drive, feedback@[i].coupling)
                    },
                forall|i: int|
                    index <= i < feedback@.len() ==> #[trigger] feedback@[i] == old(feedback)@[i],
            decreases strings - index,
        {
            let mixed = self.mix(signals, index, sum, count, minus, quotient, blend);
            let coupling = if is_receptive_string(self, index) {
                drive(heard, self.global_coupling_gain)
            } else {
                silence
            };
            feedback[index] = Feedback { mixed, coupling };
            index = index + 1;
        }
    }

    /// `mixed` is what string `index` makes of its own signal and the others':
    /// the blend where it takes part, its own signal alone where it is damped.
    pub open spec fn mixes<
        T,
        M: Fn(T, T) -> T,
        Q: Fn(T, usize) -> T,
        B: Fn(T, T, Binary32) -> T,
    >(self, signals: Seq<T>, index: int, sum: T, minus: M, quotient: Q, blend: B, mixed: T) -> bool {
        if takes_part(self, index) {
            is_blended(
                sum,
                signals[index],
                receptive_among(self, self.count()) as usize,
                self.local_coupling_gain,
                minus,
                quotient,
                blend,
                mixed,
            )
        } else {
            mixed == signals[index]
        }
    }

    /// What string `index` makes of its own signal and the others'.
    fn mix<T: Copy, M: Fn(T, T) -> T, Q: Fn(T, usize) -> T, B: Fn(T, T, Binary32) -> T>(
        &self,
        signals: &[T],
        index: usize,
        sum: T,
        receptive_count: usize,
        minus: &M,
        quotient: &Q,
        blend: &B,
    ) -> (mixed: T)
        requires
            index < signals@.len(),
            receptive_count == receptive_among(*self, self.count()),
            forall|total: T, part: T| minus.requires((total, part)),
            forall|total: T, count: usize| count > 0 ==> quotient.requires((total, count)),
            forall|own: T, other: T, gain: Binary32| blend.requires((own, other, gain)),
        ensures
            self.mixes(signals@, index as int, sum, *minus, *quotient, *blend, mixed),
    {
        let own = signals[index];
        if !is_receptive_string(self, index) {
            return own;
        }
        let mean = other_strings_mean(sum, own, receptive_count, minus, quotient);
        blend(own, mean, self.local_coupling_gain)
    }
}

/// `heard` is what the bridge gives back at `index`: the mean of what everybody
/// put in during the block before, and silence where nobody did.
pub open spec fn is_heard<T: Copy, Q: Fn(T, usize) -> T>(
    bus: BridgeBus<T>,
    index: usize,
    silence: T,
    quotient: Q,
    heard: T,
) -> bool {
    match bridge::finished(bus, index) {
        Some(slot) => quotient.ensures((slot.sum, slot.count as usize), heard),
        None => heard == silence,
    }
}

/// A damped string gives nothing: whatever it holds, the note gives the same.
pub proof fn damped_strings_give_nothing<T, P: Fn(T, T) -> T>(
    group: UnisonGroup,
    signals: Seq<T>,
    others: Seq<T>,
    silence: T,
    plus: P,
    total: T,
    length: int,
)
    requires
        forall|i: int| 0 <= i < length && takes_part(group, i) ==> signals[i] == others[i],
        sums_to(group, signals, length, silence, plus, total),
    ensures
        sums_to(group, others, length, silence, plus, total),
    decreases length,
{
    if length > 0 {
        if takes_part(group, length - 1) {
            let before = choose|before: T|
                sums_to(group, signals, length - 1, silence, plus, before)
                    && #[trigger] plus.ensures((before, signals[length - 1]), total);
            damped_strings_give_nothing(group, signals, others, silence, plus, before, length - 1);
            assert(plus.ensures((before, others[length - 1]), total));
        } else {
            damped_strings_give_nothing(group, signals, others, silence, plus, total, length - 1);
        }
    }
}

/// A group with every damper down gives silence, and each of its strings writes
/// back its own signal alone.
pub proof fn damped_groups_are_isolated<
    T,
    P: Fn(T, T) -> T,
    M: Fn(T, T) -> T,
    Q: Fn(T, usize) -> T,
    B: Fn(T, T, Binary32) -> T,
>(
    group: UnisonGroup,
    signals: Seq<T>,
    silence: T,
    plus: P,
    minus: M,
    quotient: Q,
    blend: B,
    total: T,
    mixed: T,
    index: int,
)
    requires
        !group.receptive(),
        0 <= index < group.count(),
        sums_to(group, signals, group.count(), silence, plus, total),
        group.mixes(signals, index, total, minus, quotient, blend, mixed),
    ensures
        total == silence,
        receptive_among(group, group.count()) == 0,
        mixed == signals[index],
{
    reveal_with_fuel(sums_to, 4);
    reveal_with_fuel(receptive_among, 4);
}

/// A sum of one note's signals has one outcome where adding does.
pub proof fn sums_are_decided<T, P: Fn(T, T) -> T>(
    group: UnisonGroup,
    signals: Seq<T>,
    length: int,
    silence: T,
    plus: P,
    total: T,
    other: T,
)
    requires
        outcome::decided_by_two(plus),
        sums_to(group, signals, length, silence, plus, total),
        sums_to(group, signals, length, silence, plus, other),
    ensures
        total == other,
    decreases length,
{
    if length > 0 {
        if takes_part(group, length - 1) {
            let one = choose|before: T|
                sums_to(group, signals, length - 1, silence, plus, before)
                    && #[trigger] plus.ensures((before, signals[length - 1]), total);
            let two = choose|before: T|
                sums_to(group, signals, length - 1, silence, plus, before)
                    && #[trigger] plus.ensures((before, signals[length - 1]), other);
            sums_are_decided(group, signals, length - 1, silence, plus, one, two);
        } else {
            sums_are_decided(group, signals, length - 1, silence, plus, total, other);
        }
    }
}

/// What a string makes of its own signal and the others' has one outcome where the
/// arithmetic does.
pub proof fn mixing_is_decided<
    T,
    M: Fn(T, T) -> T,
    Q: Fn(T, usize) -> T,
    B: Fn(T, T, Binary32) -> T,
>(
    group: UnisonGroup,
    signals: Seq<T>,
    index: int,
    sum: T,
    minus: M,
    quotient: Q,
    blend: B,
    mixed: T,
    other: T,
)
    requires
        outcome::decided_by_two(minus),
        outcome::decided_by_two(quotient),
        outcome::decided_by_three(blend),
        group.mixes(signals, index, sum, minus, quotient, blend, mixed),
        group.mixes(signals, index, sum, minus, quotient, blend, other),
    ensures
        mixed == other,
{
    if takes_part(group, index) {
        let count = receptive_among(group, group.count()) as usize;
        let own = signals[index];
        let gain = group.local_coupling_gain;
        let one = choose|mean: T| #[trigger]
            is_others_mean(sum, own, count, minus, quotient, mean) && blend.ensures(
                (own, mean, gain),
                mixed,
            );
        let two = choose|mean: T| #[trigger]
            is_others_mean(sum, own, count, minus, quotient, mean) && blend.ensures(
                (own, mean, gain),
                other,
            );
        if count > 1 {
            let rest = choose|rest: T| #[trigger]
                minus.ensures((sum, own), rest) && quotient.ensures(
                    (rest, (count - 1) as usize),
                    one,
                );
            let left = choose|rest: T| #[trigger]
                minus.ensures((sum, own), rest) && quotient.ensures(
                    (rest, (count - 1) as usize),
                    two,
                );
            assert(rest == left);
        }
        assert(one == two);
    }
}

/// Coupling reads the signals of a note's own strings, and no others.
pub proof fn coupling_reads_a_notes_strings<
    T,
    P: Fn(T, T) -> T,
    M: Fn(T, T) -> T,
    Q: Fn(T, usize) -> T,
    B: Fn(T, T, Binary32) -> T,
>(
    group: UnisonGroup,
    signals: Seq<T>,
    others: Seq<T>,
    silence: T,
    plus: P,
    minus: M,
    quotient: Q,
    blend: B,
    feedback: Seq<Feedback<T>>,
)
    requires
        forall|i: int| 0 <= i < group.count() ==> #[trigger] signals[i] == others[i],
        is_coupled(group, signals, silence, plus, minus, quotient, blend, feedback),
    ensures
        is_coupled(group, others, silence, plus, minus, quotient, blend, feedback),
{
    let sum = choose|sum: T|
        {
            &&& #[trigger] sums_to(group, signals, group.count(), silence, plus, sum)
            &&& forall|i: int|
                0 <= i < group.count() ==> {
                    &&& (#[trigger] feedback[i]).coupling == silence
                    &&& group.mixes(signals, i, sum, minus, quotient, blend, feedback[i].mixed)
                }
        };
    damped_strings_give_nothing(group, signals, others, silence, plus, sum, group.count());
    assert forall|i: int| 0 <= i < group.count() implies group.mixes(
        others,
        i,
        sum,
        minus,
        quotient,
        blend,
        (#[trigger] feedback[i]).mixed,
    ) by {
        assert(signals[i] == others[i]);
    }
}

/// A bridge that drives nothing costs nothing: where nobody put anything in during
/// the block before, every string writes back what it would without a bridge.
pub proof fn silent_bridges_cost_nothing<
    T: Copy,
    P: Fn(T, T) -> T,
    M: Fn(T, T) -> T,
    Q: Fn(T, usize) -> T,
    B: Fn(T, T, Binary32) -> T,
    D: Fn(T, Binary32) -> T,
>(
    group: UnisonGroup,
    signals: Seq<T>,
    silence: T,
    before: BridgeBus<T>,
    index: usize,
    plus: P,
    minus: M,
    quotient: Q,
    blend: B,
    drive: D,
    after: BridgeBus<T>,
    bridged: Seq<Feedback<T>>,
    alone: Seq<Feedback<T>>,
)
    requires
        outcome::decided_by_two(plus),
        outcome::decided_by_two(minus),
        outcome::decided_by_two(quotient),
        outcome::decided_by_three(blend),
        forall|driven: T|
            #[trigger] drive.ensures((silence, group.global_coupling_gain), driven) ==> driven
                == silence,
        bridge::finished(before, index) is None,
        is_coupled_with_bridge(
            group,
            signals,
            silence,
            before,
            index,
            plus,
            minus,
            quotient,
            blend,
            drive,
            after,
            bridged,
        ),
        is_coupled(group, signals, silence, plus, minus, quotient, blend, alone),
    ensures
        forall|i: int| 0 <= i < group.count() ==> #[trigger] bridged[i] == alone[i],
{
    let (sum, given, heard) = choose|sum: T, given: T, heard: T|
        {
            &&& #[trigger] sums_to(group, signals, group.count(), silence, plus, sum)
            &&& #[trigger] is_mean(
                sum,
                receptive_among(group, group.count()) as usize,
                silence,
                quotient,
                given,
            )
            &&& bridge::added(before, after, index, given, plus)
            &&& #[trigger] is_heard(before, index, silence, quotient, heard)
            &&& forall|i: int|
                0 <= i < group.count() ==> {
                    &&& group.mixes(
                        signals,
                        i,
                        sum,
                        minus,
                        quotient,
                        blend,
                        (#[trigger] bridged[i]).mixed,
                    )
                    &&& is_driven(group, i, heard, silence, drive, bridged[i].coupling)
                }
        };
    let other = choose|sum: T|
        {
            &&& #[trigger] sums_to(group, signals, group.count(), silence, plus, sum)
            &&& forall|i: int|
                0 <= i < group.count() ==> {
                    &&& (#[trigger] alone[i]).coupling == silence
                    &&& group.mixes(signals, i, sum, minus, quotient, blend, alone[i].mixed)
                }
        };
    sums_are_decided(group, signals, group.count(), silence, plus, sum, other);
    assert forall|i: int| 0 <= i < group.count() implies #[trigger] bridged[i] == alone[i] by {
        mixing_is_decided(
            group,
            signals,
            i,
            sum,
            minus,
            quotient,
            blend,
            bridged[i].mixed,
            alone[i].mixed,
        );
        assert(is_driven(group, i, heard, silence, drive, bridged[i].coupling));
    }
}

/// Coupling has one outcome where the arithmetic does: it depends on the signals of
/// the note's own strings and on what the bridge holds, and on nothing else.
pub proof fn coupling_is_decided<
    T: Copy,
    P: Fn(T, T) -> T,
    M: Fn(T, T) -> T,
    Q: Fn(T, usize) -> T,
    B: Fn(T, T, Binary32) -> T,
    D: Fn(T, Binary32) -> T,
>(
    group: UnisonGroup,
    silence: T,
    index: usize,
    plus: P,
    minus: M,
    quotient: Q,
    blend: B,
    drive: D,
    signals: Seq<T>,
    before: BridgeBus<T>,
    after: BridgeBus<T>,
    feedback: Seq<Feedback<T>>,
    other_signals: Seq<T>,
    other_before: BridgeBus<T>,
    other_after: BridgeBus<T>,
    other_feedback: Seq<Feedback<T>>,
)
    requires
        outcome::decided_by_two(plus),
        outcome::decided_by_two(minus),
        outcome::decided_by_two(quotient),
        outcome::decided_by_three(blend),
        outcome::decided_by_two(drive),
        forall|i: int| 0 <= i < group.count() ==> signals[i] == #[trigger] other_signals[i],
        bridge::is_alike(before, other_before),
        is_coupled_with_bridge(
            group,
            signals,
            silence,
            before,
            index,
            plus,
            minus,
            quotient,
            blend,
            drive,
            after,
            feedback,
        ),
        is_coupled_with_bridge(
            group,
            other_signals,
            silence,
            other_before,
            index,
            plus,
            minus,
            quotient,
            blend,
            drive,
            other_after,
            other_feedback,
        ),
    ensures
        bridge::is_alike(after, other_after),
        forall|i: int| 0 <= i < group.count() ==> #[trigger] feedback[i] == other_feedback[i],
{
    let count = receptive_among(group, group.count()) as usize;
    let (sum, given, heard) = choose|sum: T, given: T, heard: T|
        {
            &&& #[trigger] sums_to(group, signals, group.count(), silence, plus, sum)
            &&& #[trigger] is_mean(sum, count, silence, quotient, given)
            &&& bridge::added(before, after, index, given, plus)
            &&& #[trigger] is_heard(before, index, silence, quotient, heard)
            &&& forall|i: int|
                0 <= i < group.count() ==> {
                    &&& group.mixes(
                        signals,
                        i,
                        sum,
                        minus,
                        quotient,
                        blend,
                        (#[trigger] feedback[i]).mixed,
                    )
                    &&& is_driven(group, i, heard, silence, drive, feedback[i].coupling)
                }
        };
    let (other_sum, other_given, other_heard) = choose|sum: T, given: T, heard: T|
        {
            &&& #[trigger] sums_to(group, other_signals, group.count(), silence, plus, sum)
            &&& #[trigger] is_mean(sum, count, silence, quotient, given)
            &&& bridge::added(other_before, other_after, index, given, plus)
            &&& #[trigger] is_heard(other_before, index, silence, quotient, heard)
            &&& forall|i: int|
                0 <= i < group.count() ==> {
                    &&& group.mixes(
                        other_signals,
                        i,
                        sum,
                        minus,
                        quotient,
                        blend,
                        (#[trigger] other_feedback[i]).mixed,
                    )
                    &&& is_driven(group, i, heard, silence, drive, other_feedback[i].coupling)
                }
        };
    damped_strings_give_nothing(
        group,
        other_signals,
        signals,
        silence,
        plus,
        other_sum,
        group.count(),
    );
    sums_are_decided(group, signals, group.count(), silence, plus, sum, other_sum);
    assert(given == other_given);
    assert(heard == other_heard);
    assert forall|i: int| 0 <= i < after.current().len() implies after.current()[i]
        == other_after.current()[i] by {
        if i != index {
            assert(after.current()[i] == before.current()[i]);
            assert(other_after.current()[i] == other_before.current()[i]);
        }
    }
    assert(after.current() =~= other_after.current());
    assert forall|i: int| 0 <= i < group.count() implies #[trigger] feedback[i]
        == other_feedback[i] by {
        assert(signals[i] == other_signals[i]);
        assert(group.mixes(signals, i, sum, minus, quotient, blend, other_feedback[i].mixed));
        mixing_is_decided(
            group,
            signals,
            i,
            sum,
            minus,
            quotient,
            blend,
            feedback[i].mixed,
            other_feedback[i].mixed,
        );
        assert(is_driven(group, i, heard, silence, drive, feedback[i].coupling));
        assert(is_driven(group, i, heard, silence, drive, other_feedback[i].coupling));
    }
}

} // verus!
