//! What a note sounds like, sample by sample.
//!
//! One sample of a string is a round: what arrives at the bridge end is read and run
//! through the string's filters, the note's strings and the bridge are coupled, and
//! what comes of that goes back into the string while the hammer pushes on. A note is
//! the sum of what its strings give.
//!
//! Every step of the arithmetic is the caller's. They are the same for every string,
//! so they come as one value, an [`Arithmetic`].
use crate::binary32::Binary32;
use crate::bridge;
use crate::bridge::BridgeBus;
use crate::coupling;
use crate::coupling::Feedback;
use crate::dispersion;
use crate::outcome;
use crate::string;
use crate::string::PluckedString;
use crate::unison::{UnisonGroup, MAX_UNISON_STRINGS};
use crate::waveguide;
use crate::waveguide::{PathState, Waveguide};
use std::marker::PhantomData;
use vstd::prelude::*;

verus! {

/// The steps of the arithmetic that turns strings into samples. `S` is where a hammer
/// is on its string.
pub struct Arithmetic<S, I, A, M, F, E, H, L, B, X, R, P, N, Q, D> {
    /// What lies between the samples around a delay: from the delay, the sample before
    /// it, the two it lies between and what was read before.
    pub interpolate: I,
    /// The loop filter's zero: from a sample, the one before and the mix of the two.
    pub average: A,
    /// The loop filter's pole: from a sample, the filter's state and the pole.
    pub smooth: M,
    /// What a dispersion section remembers.
    pub feed: F,
    /// What a dispersion section gives.
    pub emit: E,
    /// The hammer, one sample on against what comes back of the string, with what was
    /// drawn from the strike's noise.
    pub step: H,
    /// Whether a hammer has left its string.
    pub has_left: L,
    /// The DC blocker: from a sample, the one before, what was given before and the
    /// pole.
    pub block: B,
    /// A product.
    pub times: X,
    /// What goes back into a string: from what it mixed, what the bridge drives, the
    /// round trip's gain and what the hammer pushes.
    pub reflect: R,
    /// A sum.
    pub plus: P,
    /// A difference.
    pub minus: N,
    /// A sum divided by a count.
    pub quotient: Q,
    /// Two signals blended by a gain.
    pub blend: D,
    /// The hammer's state.
    pub hammer: PhantomData<S>,
}

/// The states of some paths.
pub open spec fn states<S: Copy>(paths: Seq<Waveguide<S>>) -> Seq<PathState<S>> {
    Seq::new(paths.len(), |i: int| paths[i]@)
}

/// Every path is well formed.
pub open spec fn are_wf<S: Copy>(paths: Seq<Waveguide<S>>) -> bool {
    forall|i: int| 0 <= i < paths.len() ==> (#[trigger] paths[i]).wf()
}

/// No path has more dispersion sections active than it has.
pub open spec fn are_bendable<S>(paths: Seq<PathState<S>>) -> bool {
    forall|i: int|
        0 <= i < paths.len() ==> 0 <= (#[trigger] paths[i]).active <= paths[i].sections.len()
}

/// A group's strings come one after the other, with no gap.
pub open spec fn is_filled(group: UnisonGroup) -> bool {
    group.third is Some ==> group.second is Some
}

/// `after` is `before` with nothing but its strings changed.
pub open spec fn has_same_shape(before: UnisonGroup, after: UnisonGroup) -> bool {
    &&& after == UnisonGroup {
        first: after.first,
        second: after.second,
        third: after.third,
        ..before
    }
    &&& before.second is Some <==> after.second is Some
    &&& before.third is Some <==> after.third is Some
}

impl<
    S: Copy,
    I: Fn(Binary32, Binary32, Binary32, Binary32, Binary32) -> Binary32,
    A: Fn(Binary32, Binary32, Binary32) -> Binary32,
    M: Fn(Binary32, Binary32, Binary32) -> Binary32,
    F: Fn(Binary32, Binary32, Binary32) -> Binary32,
    E: Fn(Binary32, Binary32, Binary32) -> Binary32,
    H: Fn(S, Binary32, Binary32) -> (S, Binary32),
    L: Fn(S) -> bool,
    B: Fn(Binary32, Binary32, Binary32, Binary32) -> Binary32,
    X: Fn(Binary32, Binary32) -> Binary32,
    R: Fn(Binary32, Binary32, Binary32, Binary32) -> Binary32,
    P: Fn(Binary32, Binary32) -> Binary32,
    N: Fn(Binary32, Binary32) -> Binary32,
    Q: Fn(Binary32, usize) -> Binary32,
    D: Fn(Binary32, Binary32, Binary32) -> Binary32,
> Arithmetic<S, I, A, M, F, E, H, L, B, X, R, P, N, Q, D> {
    /// Every step can be taken, whatever it is handed.
    pub open spec fn takes_anything(&self) -> bool {
        &&& forall|a: Binary32, b: Binary32, c: Binary32, d: Binary32, e: Binary32|
            self.interpolate.requires((a, b, c, d, e))
        &&& forall|a: Binary32, b: Binary32, c: Binary32| self.average.requires((a, b, c))
        &&& forall|a: Binary32, b: Binary32, c: Binary32| self.smooth.requires((a, b, c))
        &&& forall|a: Binary32, b: Binary32, c: Binary32| self.feed.requires((a, b, c))
        &&& forall|a: Binary32, b: Binary32, c: Binary32| self.emit.requires((a, b, c))
        &&& forall|felt: S, incoming: Binary32, drawn: Binary32|
            self.step.requires((felt, incoming, drawn))
        &&& forall|state: S| self.has_left.requires((state,))
        &&& forall|a: Binary32, b: Binary32, c: Binary32, d: Binary32|
            self.block.requires((a, b, c, d))
        &&& forall|a: Binary32, b: Binary32| self.times.requires((a, b))
        &&& forall|a: Binary32, b: Binary32, c: Binary32, d: Binary32|
            self.reflect.requires((a, b, c, d))
        &&& forall|a: Binary32, b: Binary32| self.plus.requires((a, b))
        &&& forall|a: Binary32, b: Binary32| self.minus.requires((a, b))
        &&& forall|total: Binary32, count: usize|
            count > 0 ==> self.quotient.requires((total, count))
        &&& forall|a: Binary32, b: Binary32, c: Binary32| self.blend.requires((a, b, c))
    }

    /// Every step has one outcome.
    pub open spec fn is_decided(&self) -> bool {
        &&& outcome::decided_by_five(self.interpolate)
        &&& outcome::decided_by_three(self.average)
        &&& outcome::decided_by_three(self.smooth)
        &&& outcome::decided_by_three(self.feed)
        &&& outcome::decided_by_three(self.emit)
        &&& outcome::decided_by_three(self.step)
        &&& outcome::decided(self.has_left)
        &&& outcome::decided_by_four(self.block)
        &&& outcome::decided_by_two(self.times)
        &&& outcome::decided_by_four(self.reflect)
        &&& outcome::decided_by_two(self.plus)
        &&& outcome::decided_by_two(self.minus)
        &&& outcome::decided_by_two(self.quotient)
        &&& outcome::decided_by_three(self.blend)
    }

    /// `tap` is what arrives at the bridge end of a string, and `signal` what the
    /// string's filters make of it.
    pub open spec fn hears(
        &self,
        string: PluckedString,
        before: PathState<S>,
        after: PathState<S>,
        tap: Binary32,
        signal: Binary32,
    ) -> bool {
        exists|read: PathState<S>|
            {
                &&& #[trigger] waveguide::is_read(
                    before,
                    string.loop_delay,
                    self.interpolate,
                    read,
                    tap,
                )
                &&& waveguide::is_dispersed(
                    read,
                    tap,
                    self.average,
                    self.smooth,
                    self.feed,
                    self.emit,
                    after,
                    signal,
                )
            }
    }

    /// `output` is what is heard of a string when `feedback` goes back into it.
    pub open spec fn answers(
        &self,
        string: PluckedString,
        before: PathState<S>,
        tap: Binary32,
        feedback: Feedback<Binary32>,
        string_after: PluckedString,
        after: PathState<S>,
        output: Binary32,
    ) -> bool {
        &&& waveguide::is_fed_back(
            string,
            before,
            tap,
            feedback.mixed,
            feedback.coupling,
            self.step,
            self.has_left,
            self.block,
            self.times,
            self.reflect,
            after,
            output,
        )
        &&& string::is_followed(string, output, self.times, string_after)
    }

    /// `output` is one sample of a string by itself, with nothing coupled to it.
    pub open spec fn sounds_alone(
        &self,
        string: PluckedString,
        before: PathState<S>,
        string_after: PluckedString,
        after: PathState<S>,
        output: Binary32,
    ) -> bool {
        exists|heard: PathState<S>, tap: Binary32, signal: Binary32|
            {
                &&& #[trigger] self.hears(string, before, heard, tap, signal)
                &&& self.answers(
                    string,
                    heard,
                    tap,
                    Feedback { mixed: signal, coupling: Binary32::from_bits(0) },
                    string_after,
                    after,
                    output,
                )
            }
    }

    /// `outputs` are the samples a string by itself plays from `before` on.
    pub open spec fn plays(
        &self,
        string: PluckedString,
        before: PathState<S>,
        outputs: Seq<Binary32>,
        string_after: PluckedString,
        after: PathState<S>,
    ) -> bool
        decreases outputs.len(),
    {
        if outputs.len() == 0 {
            string_after == string && after == before
        } else {
            exists|played: PluckedString, state: PathState<S>|
                {
                    &&& self.plays(string, before, outputs.drop_last(), played, state)
                    &&& #[trigger] self.sounds_alone(played, state, string_after, after, outputs.last())
                }
        }
    }

    /// `after` is `before` with every one of `outputs` added to it.
    pub open spec fn adds_to(
        &self,
        before: Seq<Binary32>,
        outputs: Seq<Binary32>,
        after: Seq<Binary32>,
    ) -> bool {
        &&& outputs.len() == before.len()
        &&& after.len() == before.len()
        &&& forall|i: int|
            0 <= i < before.len() ==> self.plus.ensures(
                (before[i], outputs[i]),
                #[trigger] after[i],
            )
    }

    /// Every string of `group` hears its path.
    pub open spec fn all_hear(
        &self,
        group: UnisonGroup,
        count: int,
        before: Seq<PathState<S>>,
        after: Seq<PathState<S>>,
        taps: Seq<Binary32>,
        signals: Seq<Binary32>,
    ) -> bool {
        &&& after.len() == before.len()
        &&& forall|i: int|
            0 <= i < count ==> self.hears(
                group.at(i)->0,
                before[i],
                #[trigger] after[i],
                taps[i],
                signals[i],
            )
        &&& forall|i: int| count <= i < before.len() ==> #[trigger] after[i] == before[i]
    }

    /// The first `count` strings of `group` answer what came of coupling them, and
    /// `outputs` is what is heard of each.
    pub open spec fn all_answer(
        &self,
        group: UnisonGroup,
        count: int,
        before: Seq<PathState<S>>,
        taps: Seq<Binary32>,
        feedback: Seq<Feedback<Binary32>>,
        group_after: UnisonGroup,
        after: Seq<PathState<S>>,
        outputs: Seq<Binary32>,
    ) -> bool {
        &&& has_same_shape(group, group_after)
        &&& after.len() == before.len()
        &&& outputs.len() == count
        &&& forall|i: int|
            0 <= i < count ==> self.answers(
                group.at(i)->0,
                before[i],
                taps[i],
                feedback[i],
                group_after.at(i)->0,
                #[trigger] after[i],
                outputs[i],
            )
        &&& forall|i: int| count <= i < before.len() ==> #[trigger] after[i] == before[i]
        &&& forall|i: int|
            count <= i < group.count() ==> #[trigger] group_after.at(i) == group.at(i)
    }

    /// `total` is what `outputs` add up to, the first one first.
    pub open spec fn adds_up(&self, outputs: Seq<Binary32>, total: Binary32) -> bool
        decreases outputs.len(),
    {
        if outputs.len() == 0 {
            total == Binary32::from_bits(0)
        } else {
            exists|before: Binary32|
                self.adds_up(outputs.drop_last(), before) && #[trigger] self.plus.ensures(
                    (before, outputs.last()),
                    total,
                )
        }
    }

    /// `output` is one sample of a note whose strings are coupled to each other only.
    pub open spec fn note_sounds(
        &self,
        group: UnisonGroup,
        before: Seq<PathState<S>>,
        group_after: UnisonGroup,
        after: Seq<PathState<S>>,
        output: Binary32,
    ) -> bool {
        exists|
            heard: Seq<PathState<S>>,
            taps: Seq<Binary32>,
            signals: Seq<Binary32>,
            feedback: Seq<Feedback<Binary32>>,
            outputs: Seq<Binary32>,
        |
            {
                &&& #[trigger] self.all_hear(group, group.count(), before, heard, taps, signals)
                &&& coupling::is_coupled(
                    group,
                    signals,
                    Binary32::from_bits(0),
                    self.plus,
                    self.minus,
                    self.quotient,
                    self.blend,
                    feedback,
                )
                &&& #[trigger] self.all_answer(
                    group,
                    group.count(),
                    heard,
                    taps,
                    feedback,
                    group_after,
                    after,
                    outputs,
                )
                &&& self.adds_up(outputs, output)
            }
    }

    /// `output` is one sample of a note whose strings are coupled to each other and
    /// to the bridge, at `index` of its block.
    pub open spec fn note_sounds_with_bridge(
        &self,
        group: UnisonGroup,
        before: Seq<PathState<S>>,
        bus: BridgeBus<Binary32>,
        index: usize,
        group_after: UnisonGroup,
        after: Seq<PathState<S>>,
        bus_after: BridgeBus<Binary32>,
        output: Binary32,
    ) -> bool {
        exists|
            heard: Seq<PathState<S>>,
            taps: Seq<Binary32>,
            signals: Seq<Binary32>,
            feedback: Seq<Feedback<Binary32>>,
            outputs: Seq<Binary32>,
        |
            {
                &&& #[trigger] self.all_hear(group, group.count(), before, heard, taps, signals)
                &&& coupling::is_coupled_with_bridge(
                    group,
                    signals,
                    Binary32::from_bits(0),
                    bus,
                    index,
                    self.plus,
                    self.minus,
                    self.quotient,
                    self.blend,
                    self.times,
                    bus_after,
                    feedback,
                )
                &&& #[trigger] self.all_answer(
                    group,
                    group.count(),
                    heard,
                    taps,
                    feedback,
                    group_after,
                    after,
                    outputs,
                )
                &&& self.adds_up(outputs, output)
            }
    }

    /// Reads what arrives at the bridge end of `string`, and runs it through the
    /// string's filters: what arrived, and what came of it.
    pub fn hear(&self, string: &PluckedString, path: &mut Waveguide<S>) -> (heard: (
        Binary32,
        Binary32,
    ))
        requires
            self.takes_anything(),
            old(path).wf(),
        ensures
            final(path).wf(),
            self.hears(*string, old(path)@, final(path)@, heard.0, heard.1),
    {
        let tap = path.read_bridge_tap(string.loop_delay(), &self.interpolate);
        let ghost read = path@;
        let signal = path.disperse(tap, &self.average, &self.smooth, &self.feed, &self.emit);
        assert(waveguide::is_read(old(path)@, string.loop_delay, self.interpolate, read, tap));
        (tap, signal)
    }

    /// Writes `feedback` back into `string`, whose bridge end read `tap`, and returns
    /// what is heard of it.
    pub fn answer(
        &self,
        string: &mut PluckedString,
        path: &mut Waveguide<S>,
        tap: Binary32,
        feedback: Feedback<Binary32>,
    ) -> (output: Binary32)
        requires
            self.takes_anything(),
            old(path).wf(),
        ensures
            final(path).wf(),
            old(string).wf() ==> final(string).wf(),
            self.answers(
                *old(string),
                old(path)@,
                tap,
                feedback,
                *final(string),
                final(path)@,
                output,
            ),
    {
        path.write_mixed_feedback(
            string,
            tap,
            feedback.mixed,
            feedback.coupling,
            &self.step,
            &self.has_left,
            &self.block,
            &self.times,
            &self.reflect,
        )
    }

    /// One sample of a string by itself.
    pub fn process(&self, string: &mut PluckedString, path: &mut Waveguide<S>) -> (output: Binary32)
        requires
            self.takes_anything(),
            old(path).wf(),
        ensures
            final(path).wf(),
            old(string).wf() ==> final(string).wf(),
            self.sounds_alone(*old(string), old(path)@, *final(string), final(path)@, output),
    {
        let (tap, signal) = self.hear(string, path);
        let ghost heard = path@;
        assert(self.hears(*old(string), old(path)@, heard, tap, signal));
        self.answer(
            string,
            path,
            tap,
            Feedback { mixed: signal, coupling: Binary32::from_bits(0) },
        )
    }

    /// Adds `output.len()` samples of a string by itself to what `output` holds.
    pub fn process_block_add(
        &self,
        string: &mut PluckedString,
        path: &mut Waveguide<S>,
        output: &mut [Binary32],
    )
        requires
            self.takes_anything(),
            old(path).wf(),
        ensures
            final(path).wf(),
            old(string).wf() ==> final(string).wf(),
            exists|outputs: Seq<Binary32>|
                {
                    &&& #[trigger] self.plays(
                        *old(string),
                        old(path)@,
                        outputs,
                        *final(string),
                        final(path)@,
                    )
                    &&& self.adds_to(old(output)@, outputs, final(output)@)
                },
    {
        let mut index: usize = 0;
        let ghost mut outputs: Seq<Binary32> = Seq::empty();
        while index < output.len()
            invariant
                self.takes_anything(),
                path.wf(),
                old(string).wf() ==> string.wf(),
                output@.len() == old(output)@.len(),
                index <= output@.len(),
                outputs.len() == index,
                forall|i: int|
                    0 <= i < index ==> self.plus.ensures(
                        (old(output)@[i], outputs[i]),
                        #[trigger] output@[i],
                    ),
                forall|i: int|
                    index <= i < output@.len() ==> #[trigger] output@[i] == old(output)@[i],
                self.plays(*old(string), old(path)@, outputs, *string, path@),
            decreases output@.len() - index,
        {
            let ghost before = (*string, path@, output@);
            let sample = self.process(string, path);
            let plus = &self.plus;
            let sum = plus(output[index], sample);
            output[index] = sum;
            proof {
                let longer = outputs.push(sample);
                assert(longer.drop_last() =~= outputs);
                assert(self.sounds_alone(before.0, before.1, *string, path@, longer.last()));
                assert forall|i: int| 0 <= i < index + 1 implies self.plus.ensures(
                    (old(output)@[i], longer[i]),
                    #[trigger] output@[i],
                ) by {
                    if i < index {
                        assert(output@[i] == before.2[i]);
                        assert(longer[i] == outputs[i]);
                    } else {
                        assert(before.2[i] == old(output)@[i]);
                    }
                }
                outputs = longer;
            }
            index = index + 1;
        }
        assert(self.adds_to(old(output)@, outputs, output@));
    }

    /// Hears every string of a note.
    fn hear_all(
        &self,
        group: &UnisonGroup,
        paths: &mut Vec<Waveguide<S>>,
        taps: &mut [Binary32; MAX_UNISON_STRINGS],
        signals: &mut [Binary32; MAX_UNISON_STRINGS],
    )
        requires
            self.takes_anything(),
            group.wf(),
            group.count() <= old(paths)@.len(),
            are_wf(old(paths)@),
        ensures
            are_wf(final(paths)@),
            final(paths)@.len() == old(paths)@.len(),
            self.all_hear(
                *group,
                group.count(),
                states(old(paths)@),
                states(final(paths)@),
                final(taps)@,
                final(signals)@,
            ),
    {
        let count = group.len();
        let mut index: usize = 0;
        while index < count
            invariant
                self.takes_anything(),
                group.wf(),
                count == group.count() <= paths@.len(),
                count <= MAX_UNISON_STRINGS,
                paths@.len() == old(paths)@.len(),
                index <= count,
                are_wf(paths@),
                self.all_hear(
                    *group,
                    index as int,
                    states(old(paths)@),
                    states(paths@),
                    taps@,
                    signals@,
                ),
            decreases count - index,
        {
            if let Some(string) = group.string(index) {
                let ghost earlier = (states(paths@), taps@, signals@);
                let (tap, signal) = self.hear(&string, &mut paths[index]);
                taps[index] = tap;
                signals[index] = signal;
                proof {
                    let now = states(paths@);
                    assert(now =~= earlier.0.update(index as int, paths@[index as int]@));
                    assert forall|i: int| 0 <= i < index + 1 implies self.hears(
                        group.at(i)->0,
                        states(old(paths)@)[i],
                        #[trigger] now[i],
                        taps@[i],
                        signals@[i],
                    ) by {
                        if i < index {
                            assert(self.hears(
                                group.at(i)->0,
                                states(old(paths)@)[i],
                                earlier.0[i],
                                earlier.1[i],
                                earlier.2[i],
                            ));
                        } else {
                            assert(earlier.0[i] == states(old(paths)@)[i]);
                        }
                    }
                }
            }
            index = index + 1;
        }
    }

    /// Answers every string of a note, and adds up what is heard of them.
    fn answer_all(
        &self,
        group: &mut UnisonGroup,
        paths: &mut Vec<Waveguide<S>>,
        taps: &[Binary32; MAX_UNISON_STRINGS],
        feedback: &[Feedback<Binary32>; MAX_UNISON_STRINGS],
    ) -> (output: Binary32)
        requires
            self.takes_anything(),
            old(group).wf(),
            old(group).count() <= old(paths)@.len(),
            are_wf(old(paths)@),
        ensures
            are_wf(final(paths)@),
            final(paths)@.len() == old(paths)@.len(),
            final(group).wf(),
            final(group).count() == old(group).count(),
            exists|outputs: Seq<Binary32>|
                {
                    &&& #[trigger] self.all_answer(
                        *old(group),
                        old(group).count(),
                        states(old(paths)@),
                        taps@,
                        feedback@,
                        *final(group),
                        states(final(paths)@),
                        outputs,
                    )
                    &&& self.adds_up(outputs, output)
                },
    {
        let count = group.len();
        let mut output = Binary32::from_bits(0);
        let ghost mut outputs: Seq<Binary32> = Seq::empty();
        let mut index: usize = 0;
        while index < count
            invariant
                self.takes_anything(),
                count == old(group).count() <= paths@.len(),
                count <= MAX_UNISON_STRINGS,
                paths@.len() == old(paths)@.len(),
                index <= count,
                are_wf(paths@),
                old(group).wf(),
                group.wf(),
                self.all_answer(
                    *old(group),
                    index as int,
                    states(old(paths)@),
                    taps@,
                    feedback@,
                    *group,
                    states(paths@),
                    outputs,
                ),
                self.adds_up(outputs, output),
            decreases count - index,
        {
            if let Some(mut string) = group.string(index) {
                let ghost earlier = states(paths@);
                let ghost unanswered = *group;
                let heard = self.answer(
                    &mut string,
                    &mut paths[index],
                    taps[index],
                    feedback[index],
                );
                group.replace_string(index, string);
                let plus = &self.plus;
                let ghost total = output;
                output = plus(output, heard);
                proof {
                    assert(states(paths@) =~= earlier.update(index as int, paths@[index as int]@));
                    let longer = outputs.push(heard);
                    assert(longer.drop_last() =~= outputs);
                    assert(self.plus.ensures((total, longer.last()), output));
                    let now = states(paths@);
                    assert forall|i: int| 0 <= i < index + 1 implies self.answers(
                        old(group).at(i)->0,
                        states(old(paths)@)[i],
                        taps@[i],
                        feedback@[i],
                        group.at(i)->0,
                        #[trigger] now[i],
                        longer[i],
                    ) by {
                        if i < index {
                            assert(now[i] == earlier[i]);
                            assert(group.at(i) == unanswered.at(i));
                            assert(longer[i] == outputs[i]);
                        } else {
                            assert(earlier[i] == states(old(paths)@)[i]);
                            assert(unanswered.at(i) == old(group).at(i));
                        }
                    }
                    assert forall|i: int| index + 1 <= i < old(group).count() implies
                        #[trigger] group.at(i) == old(group).at(i) by {
                        assert(unanswered.at(i) == old(group).at(i));
                    }
                    outputs = longer;
                }
            }
            index = index + 1;
        }
        output
    }

    /// One sample of a note whose strings are coupled to each other only.
    pub fn sound_note(&self, group: &mut UnisonGroup, paths: &mut Vec<Waveguide<S>>) -> (output:
        Binary32)
        requires
            self.takes_anything(),
            old(group).wf(),
            old(group).count() <= old(paths)@.len(),
            are_wf(old(paths)@),
        ensures
            are_wf(final(paths)@),
            final(paths)@.len() == old(paths)@.len(),
            final(group).wf(),
            final(group).count() == old(group).count(),
            self.note_sounds(
                *old(group),
                states(old(paths)@),
                *final(group),
                states(final(paths)@),
                output,
            ),
    {
        let silence = Binary32::from_bits(0);
        let mut taps = [silence; MAX_UNISON_STRINGS];
        let mut signals = [silence; MAX_UNISON_STRINGS];
        let mut feedback = [Feedback { mixed: silence, coupling: silence }; MAX_UNISON_STRINGS];
        self.hear_all(group, paths, &mut taps, &mut signals);
        group.process(
            &signals,
            silence,
            &mut feedback,
            &self.plus,
            &self.minus,
            &self.quotient,
            &self.blend,
        );
        self.answer_all(group, paths, &taps, &feedback)
    }

    /// One sample of a note whose strings are coupled to each other and to the
    /// bridge, at `bridge_index` of its block.
    pub fn sound_note_with_bridge(
        &self,
        group: &mut UnisonGroup,
        paths: &mut Vec<Waveguide<S>>,
        bridge: &mut BridgeBus<Binary32>,
        bridge_index: usize,
    ) -> (output: Binary32)
        requires
            self.takes_anything(),
            old(group).wf(),
            old(group).count() <= old(paths)@.len(),
            are_wf(old(paths)@),
            old(bridge).wf(),
            bridge_index < old(bridge).current().len() ==> old(
                bridge,
            ).current()[bridge_index as int].count < u32::MAX,
        ensures
            are_wf(final(paths)@),
            final(paths)@.len() == old(paths)@.len(),
            final(bridge).wf(),
            final(group).wf(),
            final(group).count() == old(group).count(),
            bridge::is_counted_once(*old(bridge), *final(bridge), bridge_index),
            self.note_sounds_with_bridge(
                *old(group),
                states(old(paths)@),
                *old(bridge),
                bridge_index,
                *final(group),
                states(final(paths)@),
                *final(bridge),
                output,
            ),
    {
        let silence = Binary32::from_bits(0);
        let mut taps = [silence; MAX_UNISON_STRINGS];
        let mut signals = [silence; MAX_UNISON_STRINGS];
        let mut feedback = [Feedback { mixed: silence, coupling: silence }; MAX_UNISON_STRINGS];
        self.hear_all(group, paths, &mut taps, &mut signals);
        group.process_with_bridge(
            &signals,
            silence,
            bridge,
            bridge_index,
            &mut feedback,
            &self.plus,
            &self.minus,
            &self.quotient,
            &self.blend,
            &self.times,
        );
        self.answer_all(group, paths, &taps, &feedback)
    }

    /// What a string hears is one thing where the arithmetic has one outcome.
    pub proof fn hearing_is_decided(
        &self,
        string: PluckedString,
        before: PathState<S>,
        after: PathState<S>,
        tap: Binary32,
        signal: Binary32,
        other: PathState<S>,
        other_tap: Binary32,
        other_signal: Binary32,
    )
        requires
            self.is_decided(),
            0 <= before.active <= before.sections.len(),
            self.hears(string, before, after, tap, signal),
            self.hears(string, before, other, other_tap, other_signal),
        ensures
            after == other,
            tap == other_tap,
            signal == other_signal,
            after.active == before.active,
            after.sections.len() == before.sections.len(),
    {
        let one = choose|read: PathState<S>|
            {
                &&& #[trigger] waveguide::is_read(
                    before,
                    string.loop_delay,
                    self.interpolate,
                    read,
                    tap,
                )
                &&& waveguide::is_dispersed(
                    read,
                    tap,
                    self.average,
                    self.smooth,
                    self.feed,
                    self.emit,
                    after,
                    signal,
                )
            };
        let two = choose|read: PathState<S>|
            {
                &&& #[trigger] waveguide::is_read(
                    before,
                    string.loop_delay,
                    self.interpolate,
                    read,
                    other_tap,
                )
                &&& waveguide::is_dispersed(
                    read,
                    other_tap,
                    self.average,
                    self.smooth,
                    self.feed,
                    self.emit,
                    other,
                    other_signal,
                )
            };
        waveguide::reading_is_decided(
            before,
            string.loop_delay,
            self.interpolate,
            one,
            tap,
            two,
            other_tap,
        );
        waveguide::dispersing_is_decided(
            one,
            tap,
            self.average,
            self.smooth,
            self.feed,
            self.emit,
            after,
            signal,
            other,
            other_signal,
        );
    }

    /// What a string answers is one thing where the arithmetic has one outcome.
    pub proof fn answering_is_decided(
        &self,
        string: PluckedString,
        before: PathState<S>,
        tap: Binary32,
        feedback: Feedback<Binary32>,
        string_after: PluckedString,
        after: PathState<S>,
        output: Binary32,
        other_string: PluckedString,
        other: PathState<S>,
        other_output: Binary32,
    )
        requires
            self.is_decided(),
            self.answers(string, before, tap, feedback, string_after, after, output),
            self.answers(string, before, tap, feedback, other_string, other, other_output),
        ensures
            string_after == other_string,
            after == other,
            output == other_output,
            after.active == before.active,
            after.sections == before.sections,
    {
        waveguide::feeding_back_is_decided(
            string,
            before,
            tap,
            feedback.mixed,
            feedback.coupling,
            self.step,
            self.has_left,
            self.block,
            self.times,
            self.reflect,
            after,
            output,
            other,
            other_output,
        );
    }

    /// Hearing changes nothing of how a path is tuned.
    pub proof fn hearing_keeps_tuning(
        &self,
        string: PluckedString,
        before: PathState<S>,
        after: PathState<S>,
        tap: Binary32,
        signal: Binary32,
    )
        requires
            0 <= before.active <= before.sections.len(),
            self.hears(string, before, after, tap, signal),
        ensures
            waveguide::cleared(after) == waveguide::cleared(before),
            after.line.len() == before.line.len(),
    {
        let read = choose|read: PathState<S>|
            {
                &&& #[trigger] waveguide::is_read(
                    before,
                    string.loop_delay,
                    self.interpolate,
                    read,
                    tap,
                )
                &&& waveguide::is_dispersed(
                    read,
                    tap,
                    self.average,
                    self.smooth,
                    self.feed,
                    self.emit,
                    after,
                    signal,
                )
            };
        let filtered = choose|filtered: Binary32| #[trigger]
            dispersion::is_bent(
                read.sections,
                read.active,
                filtered,
                self.feed,
                self.emit,
                after.sections,
                signal,
            );
        let signals = choose|signals: Seq<Binary32>|
            {
                &&& signals.len() == read.active + 1
                &&& signals[0] == filtered
                &&& signals.last() == signal
                &&& #[trigger] dispersion::are_passed(
                    read.sections,
                    after.sections,
                    signals,
                    self.feed,
                    self.emit,
                )
            };
        assert forall|i: int| 0 <= i < before.sections.len() implies (
        #[trigger] after.sections[i]).coefficient == before.sections[i].coefficient by {
            if i < before.active {
                assert(dispersion::passes(
                    read.sections[i],
                    signals[i],
                    after.sections[i],
                    signals[i + 1],
                    self.feed,
                    self.emit,
                ));
            }
        }
        assert(waveguide::cleared(after) =~= waveguide::cleared(before));
    }

    /// Answering changes nothing of how a path is tuned, and nothing of its string but
    /// the level.
    pub proof fn answering_keeps_tuning(
        &self,
        string: PluckedString,
        before: PathState<S>,
        tap: Binary32,
        feedback: Feedback<Binary32>,
        string_after: PluckedString,
        after: PathState<S>,
        output: Binary32,
    )
        requires
            before.line.len() > 0,
            self.answers(string, before, tap, feedback, string_after, after, output),
        ensures
            waveguide::cleared(after) == waveguide::cleared(before),
            after.line.len() == before.line.len(),
            string_after == (PluckedString { envelope: string_after.envelope, ..string }),
    {
        assert(after.line.len() == before.line.len());
        assert(waveguide::cleared(after) =~= waveguide::cleared(before));
    }

    /// Playing changes nothing of how a string is tuned and set, whatever it plays.
    pub proof fn playing_keeps_tuning(
        &self,
        string: PluckedString,
        before: PathState<S>,
        outputs: Seq<Binary32>,
        string_after: PluckedString,
        after: PathState<S>,
    )
        requires
            0 <= before.active <= before.sections.len(),
            before.line.len() > 0,
            self.plays(string, before, outputs, string_after, after),
        ensures
            waveguide::cleared(after) == waveguide::cleared(before),
            after.line.len() == before.line.len(),
            string_after == (PluckedString { envelope: string_after.envelope, ..string }),
        decreases outputs.len(),
    {
        if outputs.len() > 0 {
            let (played, state) = choose|played: PluckedString, state: PathState<S>|
                {
                    &&& self.plays(string, before, outputs.drop_last(), played, state)
                    &&& #[trigger] self.sounds_alone(
                        played,
                        state,
                        string_after,
                        after,
                        outputs.last(),
                    )
                };
            self.playing_keeps_tuning(string, before, outputs.drop_last(), played, state);
            assert(waveguide::cleared(state).active == state.active);
            assert(waveguide::cleared(state).sections.len() == state.sections.len());
            assert(waveguide::cleared(before).sections.len() == before.sections.len());
            let silence = Binary32::from_bits(0);
            let (heard, tap, signal) = choose|heard: PathState<S>, tap: Binary32, signal: Binary32|
                {
                    &&& #[trigger] self.hears(played, state, heard, tap, signal)
                    &&& self.answers(
                        played,
                        heard,
                        tap,
                        Feedback { mixed: signal, coupling: silence },
                        string_after,
                        after,
                        outputs.last(),
                    )
                };
            self.hearing_keeps_tuning(played, state, heard, tap, signal);
            self.answering_keeps_tuning(
                played,
                heard,
                tap,
                Feedback { mixed: signal, coupling: silence },
                string_after,
                after,
                outputs.last(),
            );
        }
    }

    /// A string by itself plays one thing: from one state, the same samples, and it
    /// ends in the same state.
    pub proof fn playing_is_decided(
        &self,
        string: PluckedString,
        before: PathState<S>,
        outputs: Seq<Binary32>,
        string_after: PluckedString,
        after: PathState<S>,
        others: Seq<Binary32>,
        other_string: PluckedString,
        other: PathState<S>,
    )
        requires
            self.is_decided(),
            0 <= before.active <= before.sections.len(),
            outputs.len() == others.len(),
            self.plays(string, before, outputs, string_after, after),
            self.plays(string, before, others, other_string, other),
        ensures
            outputs == others,
            string_after == other_string,
            after == other,
            after.active == before.active,
            after.sections.len() == before.sections.len(),
        decreases outputs.len(),
    {
        if outputs.len() > 0 {
            let (played, state) = choose|played: PluckedString, state: PathState<S>|
                {
                    &&& self.plays(string, before, outputs.drop_last(), played, state)
                    &&& #[trigger] self.sounds_alone(played, state, string_after, after, outputs.last())
                };
            let (other_played, other_state) = choose|played: PluckedString, state: PathState<S>|
                {
                    &&& self.plays(string, before, others.drop_last(), played, state)
                    &&& #[trigger] self.sounds_alone(played, state, other_string, other, others.last())
                };
            self.playing_is_decided(
                string,
                before,
                outputs.drop_last(),
                played,
                state,
                others.drop_last(),
                other_played,
                other_state,
            );
            self.sample_is_decided(
                played,
                state,
                string_after,
                after,
                outputs.last(),
                other_string,
                other,
                others.last(),
            );
            assert(outputs =~= outputs.drop_last().push(outputs.last()));
            assert(others =~= others.drop_last().push(others.last()));
        } else {
            assert(outputs =~= others);
        }
    }

    /// One sample of a string by itself is one sample.
    pub proof fn sample_is_decided(
        &self,
        string: PluckedString,
        before: PathState<S>,
        string_after: PluckedString,
        after: PathState<S>,
        output: Binary32,
        other_string: PluckedString,
        other: PathState<S>,
        other_output: Binary32,
    )
        requires
            self.is_decided(),
            0 <= before.active <= before.sections.len(),
            self.sounds_alone(string, before, string_after, after, output),
            self.sounds_alone(string, before, other_string, other, other_output),
        ensures
            string_after == other_string,
            after == other,
            output == other_output,
            after.active == before.active,
            after.sections.len() == before.sections.len(),
    {
        let silence = Binary32::from_bits(0);
        let (heard, tap, signal) = choose|heard: PathState<S>, tap: Binary32, signal: Binary32|
            {
                &&& #[trigger] self.hears(string, before, heard, tap, signal)
                &&& self.answers(
                    string,
                    heard,
                    tap,
                    Feedback { mixed: signal, coupling: silence },
                    string_after,
                    after,
                    output,
                )
            };
        let (other_heard, other_tap, other_signal) = choose|
            heard: PathState<S>,
            tap: Binary32,
            signal: Binary32,
        |
            {
                &&& #[trigger] self.hears(string, before, heard, tap, signal)
                &&& self.answers(
                    string,
                    heard,
                    tap,
                    Feedback { mixed: signal, coupling: silence },
                    other_string,
                    other,
                    other_output,
                )
            };
        self.hearing_is_decided(
            string,
            before,
            heard,
            tap,
            signal,
            other_heard,
            other_tap,
            other_signal,
        );
        self.answering_is_decided(
            string,
            heard,
            tap,
            Feedback { mixed: signal, coupling: silence },
            string_after,
            after,
            output,
            other_string,
            other,
            other_output,
        );
    }

    /// What some samples add up to is one sample where adding has one outcome.
    pub proof fn adding_up_is_decided(
        &self,
        outputs: Seq<Binary32>,
        total: Binary32,
        other: Binary32,
    )
        requires
            self.is_decided(),
            self.adds_up(outputs, total),
            self.adds_up(outputs, other),
        ensures
            total == other,
        decreases outputs.len(),
    {
        if outputs.len() > 0 {
            let one = choose|before: Binary32|
                self.adds_up(outputs.drop_last(), before) && #[trigger] self.plus.ensures(
                    (before, outputs.last()),
                    total,
                );
            let two = choose|before: Binary32|
                self.adds_up(outputs.drop_last(), before) && #[trigger] self.plus.ensures(
                    (before, outputs.last()),
                    other,
                );
            self.adding_up_is_decided(outputs.drop_last(), one, two);
        }
    }

    /// What a note's strings hear is one thing where the arithmetic has one outcome.
    pub(crate) proof fn lemma_all_hear_alike(
        &self,
        group: UnisonGroup,
        before: Seq<PathState<S>>,
        heard: Seq<PathState<S>>,
        taps: Seq<Binary32>,
        signals: Seq<Binary32>,
        other: Seq<PathState<S>>,
        other_taps: Seq<Binary32>,
        other_signals: Seq<Binary32>,
    )
        requires
            self.is_decided(),
            group.count() <= before.len(),
            are_bendable(before),
            self.all_hear(group, group.count(), before, heard, taps, signals),
            self.all_hear(group, group.count(), before, other, other_taps, other_signals),
        ensures
            heard == other,
            are_bendable(heard),
            forall|i: int| 0 <= i < group.count() ==> taps[i] == #[trigger] other_taps[i],
            forall|i: int| 0 <= i < group.count() ==> signals[i] == #[trigger] other_signals[i],
    {
        assert forall|i: int| 0 <= i < group.count() implies heard[i] == other[i] && taps[i]
            == other_taps[i] && signals[i] == other_signals[i] && heard[i].active
            == before[i].active && heard[i].sections.len() == before[i].sections.len() by {
            assert(before[i].active <= before[i].sections.len());
            assert(self.hears(group.at(i)->0, before[i], heard[i], taps[i], signals[i]));
            assert(self.hears(
                group.at(i)->0,
                before[i],
                other[i],
                other_taps[i],
                other_signals[i],
            ));
            self.hearing_is_decided(
                group.at(i)->0,
                before[i],
                heard[i],
                taps[i],
                signals[i],
                other[i],
                other_taps[i],
                other_signals[i],
            );
        }
        assert forall|i: int| 0 <= i < before.len() implies heard[i] == other[i] by {
            if i >= group.count() {
                assert(heard[i] == before[i]);
                assert(other[i] == before[i]);
            }
        }
        assert(heard =~= other);
        assert forall|i: int| 0 <= i < heard.len() implies 0 <= (#[trigger] heard[i]).active
            <= heard[i].sections.len() by {
            assert(before[i].active <= before[i].sections.len());
        }
    }

    /// What a note's strings answer is one thing where the arithmetic has one outcome.
    pub(crate) proof fn lemma_all_answer_alike(
        &self,
        group: UnisonGroup,
        before: Seq<PathState<S>>,
        taps: Seq<Binary32>,
        feedback: Seq<Feedback<Binary32>>,
        group_after: UnisonGroup,
        after: Seq<PathState<S>>,
        outputs: Seq<Binary32>,
        other_taps: Seq<Binary32>,
        other_feedback: Seq<Feedback<Binary32>>,
        other_group: UnisonGroup,
        other: Seq<PathState<S>>,
        others: Seq<Binary32>,
    )
        requires
            self.is_decided(),
            is_filled(group),
            group.count() <= before.len(),
            forall|i: int| 0 <= i < group.count() ==> taps[i] == #[trigger] other_taps[i],
            forall|i: int|
                0 <= i < group.count() ==> #[trigger] feedback[i] == other_feedback[i],
            self.all_answer(
                group,
                group.count(),
                before,
                taps,
                feedback,
                group_after,
                after,
                outputs,
            ),
            self.all_answer(
                group,
                group.count(),
                before,
                other_taps,
                other_feedback,
                other_group,
                other,
                others,
            ),
        ensures
            group_after == other_group,
            after == other,
            outputs == others,
            are_bendable(before) ==> are_bendable(after),
    {
        assert forall|i: int| 0 <= i < group.count() implies after[i] == other[i] && outputs[i]
            == others[i] && (#[trigger] group_after.at(i))->0 == other_group.at(i)->0
            && after[i].active == before[i].active && after[i].sections == before[i].sections by {
            assert(feedback[i] == other_feedback[i]);
            assert(taps[i] == other_taps[i]);
            assert(self.answers(
                group.at(i)->0,
                before[i],
                taps[i],
                feedback[i],
                group_after.at(i)->0,
                after[i],
                outputs[i],
            ));
            assert(self.answers(
                group.at(i)->0,
                before[i],
                taps[i],
                feedback[i],
                other_group.at(i)->0,
                other[i],
                others[i],
            ));
            self.answering_is_decided(
                group.at(i)->0,
                before[i],
                taps[i],
                feedback[i],
                group_after.at(i)->0,
                after[i],
                outputs[i],
                other_group.at(i)->0,
                other[i],
                others[i],
            );
        }
        assert forall|i: int| 0 <= i < before.len() implies after[i] == other[i] by {
            if i < group.count() {
                assert(group_after.at(i)->0 == other_group.at(i)->0);
            } else {
                assert(after[i] == before[i]);
                assert(other[i] == before[i]);
            }
        }
        assert(after =~= other);
        if are_bendable(before) {
            assert forall|i: int| 0 <= i < after.len() implies 0 <= (#[trigger] after[i]).active
                <= after[i].sections.len() by {
                assert(before[i].active <= before[i].sections.len());
                if i < group.count() {
                    assert(group_after.at(i)->0 == other_group.at(i)->0);
                }
            }
        }
        assert forall|i: int| 0 <= i < outputs.len() implies outputs[i] == others[i] by {
            assert(group_after.at(i)->0 == other_group.at(i)->0);
        }
        assert(outputs =~= others);
        assert(group_after.at(0)->0 == other_group.at(0)->0);
        if group.second is Some {
            assert(group_after.at(1)->0 == other_group.at(1)->0);
        }
        if group.third is Some {
            assert(group_after.at(2)->0 == other_group.at(2)->0);
        }
        assert(group_after == other_group);
    }

    /// A silent bridge changes no sample: where nobody put anything into the bridge
    /// during the block before, a note gives the sample it would give without one,
    /// and its strings are left as they would be.
    pub proof fn silent_bridges_change_no_sample(
        &self,
        group: UnisonGroup,
        before: Seq<PathState<S>>,
        bus: BridgeBus<Binary32>,
        index: usize,
        group_after: UnisonGroup,
        after: Seq<PathState<S>>,
        bus_after: BridgeBus<Binary32>,
        output: Binary32,
        alone_group: UnisonGroup,
        alone: Seq<PathState<S>>,
        alone_output: Binary32,
    )
        requires
            self.is_decided(),
            forall|driven: Binary32|
                #[trigger] self.times.ensures(
                    (Binary32::from_bits(0), group.global_coupling_gain),
                    driven,
                ) ==> driven == Binary32::from_bits(0),
            is_filled(group),
            group.count() <= before.len(),
            are_bendable(before),
            bridge::finished(bus, index) is None,
            self.note_sounds_with_bridge(
                group,
                before,
                bus,
                index,
                group_after,
                after,
                bus_after,
                output,
            ),
            self.note_sounds(group, before, alone_group, alone, alone_output),
        ensures
            group_after == alone_group,
            after == alone,
            output == alone_output,
            has_same_shape(group, group_after),
            after.len() == before.len(),
            are_bendable(after),
            bus_after.previous() == bus.previous(),
    {
        let silence = Binary32::from_bits(0);
        let (heard, taps, signals, feedback, outputs) = choose|
            heard: Seq<PathState<S>>,
            taps: Seq<Binary32>,
            signals: Seq<Binary32>,
            feedback: Seq<Feedback<Binary32>>,
            outputs: Seq<Binary32>,
        |
            {
                &&& #[trigger] self.all_hear(group, group.count(), before, heard, taps, signals)
                &&& coupling::is_coupled_with_bridge(
                    group,
                    signals,
                    silence,
                    bus,
                    index,
                    self.plus,
                    self.minus,
                    self.quotient,
                    self.blend,
                    self.times,
                    bus_after,
                    feedback,
                )
                &&& #[trigger] self.all_answer(
                    group,
                    group.count(),
                    heard,
                    taps,
                    feedback,
                    group_after,
                    after,
                    outputs,
                )
                &&& self.adds_up(outputs, output)
            };
        let (other_heard, other_taps, other_signals, other_feedback, others) = choose|
            heard: Seq<PathState<S>>,
            taps: Seq<Binary32>,
            signals: Seq<Binary32>,
            feedback: Seq<Feedback<Binary32>>,
            outputs: Seq<Binary32>,
        |
            {
                &&& #[trigger] self.all_hear(group, group.count(), before, heard, taps, signals)
                &&& coupling::is_coupled(
                    group,
                    signals,
                    silence,
                    self.plus,
                    self.minus,
                    self.quotient,
                    self.blend,
                    feedback,
                )
                &&& #[trigger] self.all_answer(
                    group,
                    group.count(),
                    heard,
                    taps,
                    feedback,
                    alone_group,
                    alone,
                    outputs,
                )
                &&& self.adds_up(outputs, alone_output)
            };
        self.lemma_all_hear_alike(
            group,
            before,
            heard,
            taps,
            signals,
            other_heard,
            other_taps,
            other_signals,
        );
        coupling::coupling_reads_a_notes_strings(
            group,
            other_signals,
            signals,
            silence,
            self.plus,
            self.minus,
            self.quotient,
            self.blend,
            other_feedback,
        );
        coupling::silent_bridges_cost_nothing(
            group,
            signals,
            silence,
            bus,
            index,
            self.plus,
            self.minus,
            self.quotient,
            self.blend,
            self.times,
            bus_after,
            feedback,
            other_feedback,
        );
        self.lemma_all_answer_alike(
            group,
            heard,
            taps,
            feedback,
            group_after,
            after,
            outputs,
            other_taps,
            other_feedback,
            alone_group,
            alone,
            others,
        );
        self.adding_up_is_decided(outputs, output, alone_output);
    }

    /// `outputs` are the samples a note by itself plays from `before` on, its strings
    /// coupled to each other only.
    pub open spec fn note_plays(
        &self,
        group: UnisonGroup,
        before: Seq<PathState<S>>,
        outputs: Seq<Binary32>,
        group_after: UnisonGroup,
        after: Seq<PathState<S>>,
    ) -> bool
        decreases outputs.len(),
    {
        if outputs.len() == 0 {
            group_after == group && after == before
        } else {
            exists|played: UnisonGroup, states: Seq<PathState<S>>|
                {
                    &&& self.note_plays(group, before, outputs.drop_last(), played, states)
                    &&& #[trigger] self.note_sounds(
                        played,
                        states,
                        group_after,
                        after,
                        outputs.last(),
                    )
                }
        }
    }

    /// `outputs` are the samples a note plays from the beginning of a bridge block on.
    pub open spec fn voice_plays(
        &self,
        group: UnisonGroup,
        before: Seq<PathState<S>>,
        bus: BridgeBus<Binary32>,
        outputs: Seq<Binary32>,
        group_after: UnisonGroup,
        after: Seq<PathState<S>>,
        bus_after: BridgeBus<Binary32>,
    ) -> bool
        decreases outputs.len(),
    {
        if outputs.len() == 0 {
            group_after == group && after == before && bus_after == bus
        } else {
            exists|played: UnisonGroup, states: Seq<PathState<S>>, reached: BridgeBus<Binary32>|
                {
                    &&& self.voice_plays(
                        group,
                        before,
                        bus,
                        outputs.drop_last(),
                        played,
                        states,
                        reached,
                    )
                    &&& #[trigger] self.note_sounds_with_bridge(
                        played,
                        states,
                        reached,
                        (outputs.len() - 1) as usize,
                        group_after,
                        after,
                        bus_after,
                        outputs.last(),
                    )
                }
        }
    }

    /// A bridge that drives nothing costs nothing, however long a note plays: where
    /// nobody put anything in during the block before, a note plays the samples it
    /// would play without a bridge.
    pub proof fn silent_bridges_change_nothing(
        &self,
        group: UnisonGroup,
        before: Seq<PathState<S>>,
        bus: BridgeBus<Binary32>,
        outputs: Seq<Binary32>,
        group_after: UnisonGroup,
        after: Seq<PathState<S>>,
        bus_after: BridgeBus<Binary32>,
        others: Seq<Binary32>,
        alone_group: UnisonGroup,
        alone: Seq<PathState<S>>,
    )
        requires
            self.is_decided(),
            forall|driven: Binary32|
                #[trigger] self.times.ensures(
                    (Binary32::from_bits(0), group.global_coupling_gain),
                    driven,
                ) ==> driven == Binary32::from_bits(0),
            is_filled(group),
            group.count() <= before.len(),
            are_bendable(before),
            forall|index: usize| bridge::finished(bus, index) is None,
            outputs.len() == others.len(),
            self.voice_plays(group, before, bus, outputs, group_after, after, bus_after),
            self.note_plays(group, before, others, alone_group, alone),
        ensures
            outputs == others,
            group_after == alone_group,
            after == alone,
            has_same_shape(group, group_after),
            after.len() == before.len(),
            are_bendable(after),
            bus_after.previous() == bus.previous(),
        decreases outputs.len(),
    {
        if outputs.len() > 0 {
            let index = (outputs.len() - 1) as usize;
            let (played, states, reached) = choose|
                played: UnisonGroup,
                states: Seq<PathState<S>>,
                reached: BridgeBus<Binary32>,
            |
                {
                    &&& self.voice_plays(
                        group,
                        before,
                        bus,
                        outputs.drop_last(),
                        played,
                        states,
                        reached,
                    )
                    &&& #[trigger] self.note_sounds_with_bridge(
                        played,
                        states,
                        reached,
                        index,
                        group_after,
                        after,
                        bus_after,
                        outputs.last(),
                    )
                };
            let (other_played, other_states) = choose|
                played: UnisonGroup,
                states: Seq<PathState<S>>,
            |
                {
                    &&& self.note_plays(group, before, others.drop_last(), played, states)
                    &&& #[trigger] self.note_sounds(
                        played,
                        states,
                        alone_group,
                        alone,
                        others.last(),
                    )
                };
            self.silent_bridges_change_nothing(
                group,
                before,
                bus,
                outputs.drop_last(),
                played,
                states,
                reached,
                others.drop_last(),
                other_played,
                other_states,
            );
            assert(bridge::finished(bus, index) is None);
            assert(bridge::finished(reached, index) is None);
            self.silent_bridges_change_no_sample(
                played,
                states,
                reached,
                index,
                group_after,
                after,
                bus_after,
                outputs.last(),
                alone_group,
                alone,
                others.last(),
            );
            assert(outputs =~= outputs.drop_last().push(outputs.last()));
            assert(others =~= others.drop_last().push(others.last()));
        } else {
            assert(outputs =~= others);
        }
    }
}

} // verus!
