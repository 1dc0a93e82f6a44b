//! Writing a strike into a string.
//!
//! A strike fills one loop length of the delay line. Every sample of it comes
//! from the hammer, which from the moment the wave has been once around the
//! string meets the reflection of its own first push; at the end the whole burst
//! is combed by where along the string the hammer landed.
use crate::binary32::Binary32;
use crate::delay::DelayLine;
use crate::hammer;
use crate::hammer::{Striker, SILENT_FORCE_BITS};
use crate::outcome;
use crate::render;
use crate::string::StrikePlan;
use vstd::prelude::*;

verus! {

/// What a delay line holding `line` holds after `samples` are written to it, the
/// first one first.
pub open spec fn written<T>(line: Seq<T>, samples: Seq<T>) -> Seq<T>
    decreases samples.len(),
{
    if samples.len() == 0 {
        line
    } else {
        seq![samples.last()] + written(line, samples.drop_last()).drop_last()
    }
}

/// Writing to a line leaves it as long as it was.
pub proof fn writing_keeps_the_length<T>(line: Seq<T>, samples: Seq<T>)
    requires
        line.len() > 0,
    ensures
        written(line, samples).len() == line.len(),
    decreases samples.len(),
{
    if samples.len() > 0 {
        writing_keeps_the_length(line, samples.drop_last());
    }
}

impl StrikePlan {
    /// What comes in along the string while sample `index` of the burst is
    /// written: silence at first, and then the burst's own reflection.
    pub open spec fn incoming<T>(self, line: Seq<T>, samples: Seq<T>, index: int, silence: T) -> T {
        if index >= self.reflected_from {
            written(line, samples.take(index))[self.reflection_delay as int % line.len() as int]
        } else {
            silence
        }
    }

    /// `samples` are the burst of a hammer that begins in the state `start` and
    /// takes `step` after `step`, through `states`.
    pub open spec fn is_burst<T, S, F: Fn(S, T, Binary32) -> (S, T)>(
        self,
        line: Seq<T>,
        silence: T,
        start: Striker<S>,
        step: F,
        states: Seq<Striker<S>>,
        samples: Seq<T>,
    ) -> bool {
        &&& states.len() == samples.len() + 1
        &&& states[0] == start
        &&& forall|i: int|
            0 <= i < samples.len() ==> hammer::is_taken(
                step,
                states[i],
                self.incoming(line, samples, i, silence),
                states[i + 1],
                #[trigger] samples[i],
            )
    }

    /// `combed` is `line` with the burst at its front combed.
    pub open spec fn is_combed<T, D: Fn(T, T) -> T>(
        self,
        line: Seq<T>,
        difference: D,
        combed: Seq<T>,
    ) -> bool {
        &&& combed.len() == line.len()
        &&& self.comb_delay == 0 ==> combed == line
        &&& self.comb_delay > 0 ==> forall|age: int|
            0 <= age < line.len() ==> if age < self.burst_length {
                difference.ensures((line[age], line[age + self.comb_delay]), #[trigger] combed[age])
            } else {
                combed[age] == line[age]
            }
    }

    /// Fills the delay line with one strike's worth of excitation, and returns
    /// the state it leaves the hammer in.
    ///
    /// `step` takes the hammer one sample further against what comes in along the
    /// string, and gives the sample to be written; `difference` combines a sample
    /// with an earlier one.
    pub fn write_excitation<T: Copy, S: Copy, F: Fn(S, T, Binary32) -> (S, T), D: Fn(T, T) -> T>(
        &self,
        line: &mut DelayLine<T>,
        silence: T,
        start: Striker<S>,
        step: &F,
        difference: &D,
    ) -> (end: Striker<S>)
        requires
            old(line).wf(),
            self.comb_delay == 0 || self.burst_length + self.comb_delay <= old(line)@.len(),
            forall|felt: S, incoming: T, drawn: Binary32| step.requires((felt, incoming, drawn)),
            forall|own: T, earlier: T| difference.requires((own, earlier)),
        ensures
            final(line).wf(),
            final(line).silence() == old(line).silence(),
            final(line)@.len() == old(line)@.len(),
            exists|states: Seq<Striker<S>>, samples: Seq<T>|
                {
                    &&& #[trigger] self.is_burst(
                        old(line)@,
                        silence,
                        start,
                        *step,
                        states,
                        samples,
                    )
                    &&& samples.len() == self.burst_length
                    &&& end == states.last()
                    &&& self.is_combed(written(old(line)@, samples), *difference, final(line)@)
                },
    {
        let mut state = start;
        let mut index: usize = 0;
        let ghost mut states: Seq<Striker<S>> = seq![start];
        let ghost mut samples: Seq<T> = Seq::empty();
        while index < self.burst_length
            invariant
                line.wf(),
                line.silence() == old(line).silence(),
                line@.len() == old(line)@.len(),
                forall|felt: S, incoming: T, drawn: Binary32| step.requires((felt, incoming, drawn)),
                index <= self.burst_length,
                samples.len() == index,
                states.last() == state,
                line@ == written(old(line)@, samples),
                self.is_burst(old(line)@, silence, start, *step, states, samples),
            decreases self.burst_length - index,
        {
            let incoming = if index >= self.reflected_from {
                line.read(self.reflection_delay)
            } else {
                silence
            };
            let mut next = state;
            let sample = next.take_step(incoming, step);
            line.write(sample);
            proof {
                let longer = samples.push(sample);
                assert(longer.drop_last() =~= samples);
                assert(samples.take(index as int) =~= samples);
                assert(longer.take(index as int) =~= samples);
                assert forall|i: int| 0 <= i < longer.len() implies hammer::is_taken(
                    *step,
                    states.push(next)[i],
                    self.incoming(old(line)@, longer, i, silence),
                    states.push(next)[i + 1],
                    #[trigger] longer[i],
                ) by {
                    if i < index {
                        assert(longer.take(i) =~= samples.take(i));
                        assert(longer[i] == samples[i]);
                    }
                }
                states = states.push(next);
                samples = longer;
            }
            state = next;
            index = index + 1;
        }
        line.apply_strike_comb(self.burst_length, self.comb_delay, difference);
        state
    }
}

/// `slopes` are the differences between neighbours among the first `active` of
/// `force`.
pub open spec fn are_slopes<D: Fn(Binary32, Binary32) -> Binary32>(
    force: Seq<Binary32>,
    active: int,
    difference: D,
    slopes: Seq<Binary32>,
) -> bool {
    let count = if active < force.len() {
        active
    } else {
        force.len() as int
    };
    &&& slopes.len() == if count == 0 {
        0
    } else {
        count - 1
    }
    &&& forall|i: int|
        0 <= i < slopes.len() ==> difference.ensures(
            (force[i + 1], force[i]),
            #[trigger] slopes[i],
        )
}

/// `scale` is what the slopes of a contact are multiplied by.
pub open spec fn is_slope_scale<
    D: Fn(Binary32, Binary32) -> Binary32,
    I: Fn(Binary32) -> Binary32,
>(
    force: Seq<Binary32>,
    active: int,
    difference: D,
    invert: I,
    scale: Binary32,
) -> bool {
    exists|slopes: Seq<Binary32>, steepest: Binary32|
        {
            &&& #[trigger] are_slopes(force, active, difference, slopes)
            &&& #[trigger] render::is_loudest(slopes, steepest)
            &&& if Binary32::from_bits(SILENT_FORCE_BITS).below(steepest) {
                invert.ensures((steepest,), scale)
            } else {
                scale == Binary32::from_bits(0)
            }
        }
}

/// What the slopes of a contact are multiplied by so that the steepest has magnitude
/// one: `invert` of the steepest, and zero for a contact that has no slope. Only the
/// first `active` of the forces are the contact.
pub fn slope_scale<
    D: Fn(Binary32, Binary32) -> Binary32,
    I: Fn(Binary32) -> Binary32,
>(force: &[Binary32], active: usize, difference: &D, invert: &I) -> (scale: Binary32)
    requires
        forall|later: Binary32, earlier: Binary32| difference.requires((later, earlier)),
        forall|steepest: Binary32| invert.requires((steepest,)),
    ensures
        is_slope_scale(force@, active as int, *difference, *invert, scale),
{
    let count: usize = if active < force.len() {
        active
    } else {
        force.len()
    };
    let mut steepest = Binary32::from_bits(0);
    let ghost mut slopes: Seq<Binary32> = Seq::empty();
    let mut index: usize = 1;
    while index < count
        invariant
            forall|later: Binary32, earlier: Binary32| difference.requires((later, earlier)),
            count <= force@.len(),
            1 <= index,
            index <= count || index == 1,
            slopes.len() == index - 1,
            render::is_loudest(slopes, steepest),
            forall|i: int|
                0 <= i < slopes.len() ==> difference.ensures(
                    (force@[i + 1], force@[i]),
                    #[trigger] slopes[i],
                ),
        decreases count - index,
    {
        let slope = difference(force[index], force[index - 1]);
        steepest = render::louder(steepest, slope);
        proof {
            slopes = slopes.push(slope);
        }
        index = index + 1;
    }
    assert(are_slopes(force@, active as int, *difference, slopes));
    if Binary32::from_bits(SILENT_FORCE_BITS).lt(steepest) {
        invert(steepest)
    } else {
        Binary32::from_bits(0)
    }
}

/// The slopes of a contact have one scale, where working it out has one outcome.
pub proof fn slope_scales_are_decided<
    D: Fn(Binary32, Binary32) -> Binary32,
    I: Fn(Binary32) -> Binary32,
>(
    force: Seq<Binary32>,
    active: int,
    difference: D,
    invert: I,
    scale: Binary32,
    other: Binary32,
)
    requires
        outcome::decided_by_two(difference),
        outcome::decided(invert),
        is_slope_scale(force, active, difference, invert, scale),
        is_slope_scale(force, active, difference, invert, other),
    ensures
        scale == other,
{
    let (slopes, steepest) = choose|slopes: Seq<Binary32>, steepest: Binary32|
        {
            &&& #[trigger] are_slopes(force, active, difference, slopes)
            &&& #[trigger] render::is_loudest(slopes, steepest)
            &&& if Binary32::from_bits(SILENT_FORCE_BITS).below(steepest) {
                invert.ensures((steepest,), scale)
            } else {
                scale == Binary32::from_bits(0)
            }
        };
    let (other_slopes, other_steepest) = choose|slopes: Seq<Binary32>, steepest: Binary32|
        {
            &&& #[trigger] are_slopes(force, active, difference, slopes)
            &&& #[trigger] render::is_loudest(slopes, steepest)
            &&& if Binary32::from_bits(SILENT_FORCE_BITS).below(steepest) {
                invert.ensures((steepest,), other)
            } else {
                other == Binary32::from_bits(0)
            }
        };
    assert forall|i: int| 0 <= i < slopes.len() implies slopes[i] == other_slopes[i] by {
        assert(difference.ensures((force[i + 1], force[i]), slopes[i]));
        assert(difference.ensures((force[i + 1], force[i]), other_slopes[i]));
    }
    assert(slopes =~= other_slopes);
    render::loudest_is_decided(slopes, steepest, other_steepest);
}

/// A strike can be repeated: the same hammer, started in the same state against a
/// line that holds the same, writes the same samples and ends in the same state.
pub proof fn strikes_repeat<T, S, F: Fn(S, T, Binary32) -> (S, T)>(
    plan: StrikePlan,
    line: Seq<T>,
    silence: T,
    start: Striker<S>,
    step: F,
    states: Seq<Striker<S>>,
    samples: Seq<T>,
    other_states: Seq<Striker<S>>,
    other_samples: Seq<T>,
)
    requires
        outcome::decided_by_three(step),
        plan.is_burst(line, silence, start, step, states, samples),
        plan.is_burst(line, silence, start, step, other_states, other_samples),
        samples.len() == other_samples.len(),
    ensures
        samples == other_samples,
        states == other_states,
    decreases samples.len(),
{
    if samples.len() > 0 {
        let last = samples.len() - 1;
        lemma_burst_prefix(plan, line, silence, start, step, states, samples);
        lemma_burst_prefix(plan, line, silence, start, step, other_states, other_samples);
        strikes_repeat(
            plan,
            line,
            silence,
            start,
            step,
            states.drop_last(),
            samples.drop_last(),
            other_states.drop_last(),
            other_samples.drop_last(),
        );
        assert(states[last] == states.drop_last()[last]);
        assert(other_states[last] == other_states.drop_last()[last]);
        assert(samples.take(last) =~= samples.drop_last());
        assert(other_samples.take(last) =~= other_samples.drop_last());
        assert(samples[last] == samples.last() && other_samples[last] == other_samples.last());
        let incoming = plan.incoming(line, samples, last, silence);
        assert(hammer::is_taken(step, states[last], incoming, states[last + 1], samples[last]));
        assert(hammer::is_taken(
            step,
            states[last],
            incoming,
            other_states[last + 1],
            other_samples[last],
        ));
        assert(samples =~= samples.drop_last().push(samples[last]));
        assert(other_samples =~= other_samples.drop_last().push(other_samples[last]));
        assert(states =~= states.drop_last().push(states[last + 1]));
        assert(other_states =~= other_states.drop_last().push(other_states[last + 1]));
    } else {
        assert(samples =~= other_samples);
        assert(states =~= other_states);
    }
}

/// A burst without its last sample is a burst.
proof fn lemma_burst_prefix<T, S, F: Fn(S, T, Binary32) -> (S, T)>(
    plan: StrikePlan,
    line: Seq<T>,
    silence: T,
    start: Striker<S>,
    step: F,
    states: Seq<Striker<S>>,
    samples: Seq<T>,
)
    requires
        samples.len() > 0,
        plan.is_burst(line, silence, start, step, states, samples),
    ensures
        plan.is_burst(line, silence, start, step, states.drop_last(), samples.drop_last()),
{
    let shorter = samples.drop_last();
    assert forall|i: int| 0 <= i < shorter.len() implies hammer::is_taken(
        step,
        states.drop_last()[i],
        plan.incoming(line, shorter, i, silence),
        states.drop_last()[i + 1],
        #[trigger] shorter[i],
    ) by {
        assert(samples[i] == shorter[i]);
        assert(shorter.take(i) =~= samples.take(i));
    }
}

} // verus!
