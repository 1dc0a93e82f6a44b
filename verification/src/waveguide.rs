//! The signal path of one string: what a wave passes on its way round.
//!
//! A wave leaves the delay line at the bridge end, loses what the loop filter takes,
//! is bent by the dispersion cascade, and goes back into the line less what the
//! round trip costs; what is heard of it has its constant offset taken out. A
//! strike begins all of that anew, and a hammer that outstays the burst it wrote
//! keeps pushing as the string rings.
use crate::binary32::Binary32;
use crate::delay;
use crate::delay::DelayLine;
use crate::dispersion;
use crate::dispersion::{DispersionCascade, Section};
use crate::filter;
use crate::filter::{DcBlocker, LoopFilter};
use crate::hammer;
use crate::hammer::{PendingContact, Striker, MAX_CONTACT_SAMPLES};
use crate::math;
use crate::outcome;
use crate::string;
use crate::string::{PluckedString, StrikePlan, StringConfig};
use vstd::prelude::*;

verus! {

/// The signal path of one string, `S` being the state of a hammer on it.
#[derive(Debug)]
pub struct Waveguide<S> {
    /// The string itself.
    pub line: DelayLine<Binary32>,
    /// What the string loses on every round trip.
    pub loop_filter: LoopFilter,
    /// What bends the upper partials.
    pub dispersion: DispersionCascade,
    /// What takes the offset out of what is heard.
    pub dc_blocker: DcBlocker,
    /// What was read at the bridge end before.
    pub last_tap: Binary32,
    /// The hammer, where it is still on the string.
    pub pending: Option<PendingContact<S>>,
}

/// Everything a signal path remembers.
#[verifier::ext_equal]
pub struct PathState<S> {
    /// What the line holds, the newest sample first.
    pub line: Seq<Binary32>,
    /// The loop filter.
    pub loop_filter: LoopFilter,
    /// The sections of the dispersion cascade.
    pub sections: Seq<Section>,
    /// How many of them are active.
    pub active: int,
    /// The DC blocker.
    pub dc_blocker: DcBlocker,
    /// What was read at the bridge end before.
    pub last_tap: Binary32,
    /// The hammer, where it is still on the string, and how long it has been.
    pub pending: Option<(Striker<S>, usize)>,
}

/// A line of `length` samples that has sounded nothing.
pub open spec fn still_line(length: nat) -> Seq<Binary32> {
    Seq::new(length, |age: int| Binary32::from_bits(0))
}

/// A path that has forgotten everything it sounded, tuned as before.
pub open spec fn cleared<S>(path: PathState<S>) -> PathState<S> {
    PathState {
        line: still_line(path.line.len()),
        loop_filter: LoopFilter {
            state: Binary32::from_bits(0),
            last_input: Binary32::from_bits(0),
            ..path.loop_filter
        },
        sections: Seq::new(
            path.sections.len(),
            |i: int| Section { state: Binary32::from_bits(0), ..path.sections[i] },
        ),
        active: path.active,
        dc_blocker: DcBlocker {
            last_input: Binary32::from_bits(0),
            last_output: Binary32::from_bits(0),
            ..path.dc_blocker
        },
        last_tap: Binary32::from_bits(0),
        pending: None,
    }
}

/// Every section of `sections` bends as an inharmonicity asks for.
pub open spec fn are_bent_for<B: Fn(Binary32) -> Binary32>(
    inharmonicity: Binary32,
    bend: B,
    sections: Seq<Section>,
) -> bool {
    exists|coefficient: Binary32|
        {
            &&& #[trigger] dispersion::is_coefficient(inharmonicity, bend, coefficient)
            &&& forall|i: int|
                0 <= i < sections.len() ==> (#[trigger] sections[i]).coefficient == coefficient
        }
}

/// A path is that of `string`: its line reads back as far as the string says, and its
/// filters are tuned as the string asks for.
pub open spec fn is_path_of<S, B: Fn(Binary32) -> Binary32>(
    string: PluckedString,
    bend: B,
    path: PathState<S>,
) -> bool {
    &&& path.line.len() == string.max_delay + 1
    &&& path.loop_filter.pole == filter::stable(string.damping)
    &&& path.loop_filter.zero_mix == math::bounded(
        string.loop_zero_mix,
        Binary32::from_bits(0),
        Binary32::from_bits(filter::MAX_ZERO_MIX_BITS),
    )
    &&& path.active == string.sections
    &&& are_bent_for(string.inharmonicity, bend, path.sections)
}

/// `after` is `before` tuned alike, whatever it remembers.
pub open spec fn is_tuned_like<S>(before: PathState<S>, after: PathState<S>) -> bool {
    &&& after.line.len() == before.line.len()
    &&& after.loop_filter.pole == before.loop_filter.pole
    &&& after.loop_filter.zero_mix == before.loop_filter.zero_mix
    &&& after.active == before.active
    &&& after.sections.len() == before.sections.len()
    &&& forall|i: int|
        0 <= i < before.sections.len() ==> (#[trigger] after.sections[i]).coefficient
            == before.sections[i].coefficient
}

/// `after` is `before` following `string`: its filters are tuned as the string asks
/// for, and what it remembers stays.
pub open spec fn is_following<S, B: Fn(Binary32) -> Binary32>(
    before: PathState<S>,
    string: PluckedString,
    bend: B,
    after: PathState<S>,
) -> bool {
    &&& after == PathState {
        loop_filter: LoopFilter { pole: filter::stable(string.damping), ..before.loop_filter },
        sections: after.sections,
        ..before
    }
    &&& are_bent_for(string.inharmonicity, bend, after.sections)
    &&& after.sections.len() == before.sections.len()
    &&& forall|i: int|
        0 <= i < before.sections.len() ==> (#[trigger] after.sections[i]).state
            == before.sections[i].state
}

impl<S: Copy> Waveguide<S> {
    /// Everything the path remembers.
    pub open spec fn view(&self) -> PathState<S> {
        PathState {
            line: self.line@,
            loop_filter: self.loop_filter,
            sections: self.dispersion@,
            active: self.dispersion.active() as int,
            dc_blocker: self.dc_blocker,
            last_tap: self.last_tap,
            pending: hammer::waiting(self.pending),
        }
    }

    /// Every part is intact, and the line's silence is zero.
    pub open spec fn wf(&self) -> bool {
        &&& self.line.wf()
        &&& self.line.silence() == Binary32::from_bits(0)
        &&& self.loop_filter.wf()
        &&& self.dispersion.wf()
    }

    /// Nothing has sounded.
    pub open spec fn is_still(&self) -> bool {
        self@ == cleared(self@)
    }

    /// The path of a string voiced by `config`, with a line that holds at least
    /// `capacity` samples where a line can.
    pub fn new<W: Fn(Binary32) -> Binary32, B: Fn(Binary32) -> Binary32>(
        config: StringConfig,
        capacity: usize,
        wanted: &W,
        bend: &B,
    ) -> (path: Self)
        requires
            forall|hertz: Binary32| wanted.requires((hertz,)),
            forall|inharmonicity: Binary32| bend.requires((inharmonicity,)),
        ensures
            path.wf(),
            path.is_still(),
            path.line@.len() == delay::capacity_for(capacity as int),
            2 <= path.line@.len() <= delay::MAX_CAPACITY,
            path.loop_filter.pole == filter::stable(string::normalised(config.damping)),
            path.loop_filter.zero_mix == crate::math::bounded(
                config.loop_zero_mix,
                Binary32::from_bits(0),
                Binary32::from_bits(filter::MAX_ZERO_MIX_BITS),
            ),
            path.dc_blocker.pole == filter::stable(
                Binary32::from_bits(filter::DC_BLOCKER_POLE_BITS),
            ),
            dispersion::is_voiced(
                config.frequency.value(),
                config.inharmonicity,
                *wanted,
                *bend,
                path.dispersion,
            ),
    {
        let path = Waveguide {
            line: DelayLine::with_capacity(capacity, Binary32::from_bits(0)),
            loop_filter: LoopFilter::new(string::normalise(config.damping), config.loop_zero_mix),
            dispersion: DispersionCascade::new(
                config.frequency.hertz(),
                config.inharmonicity,
                wanted,
                bend,
            ),
            dc_blocker: DcBlocker::default(),
            last_tap: Binary32::from_bits(0),
            pending: None,
        };
        assert(path@ =~= cleared(path@));
        path
    }

    /// Forgets everything that has sounded, and keeps how the string is tuned.
    pub fn clear(&mut self)
        requires
            old(self).wf(),
        ensures
            final(self).wf(),
            final(self)@ == cleared(old(self)@),
    {
        self.line.clear();
        self.loop_filter.reset();
        self.dispersion.reset();
        self.dc_blocker.reset();
        self.last_tap = Binary32::from_bits(0);
        self.pending = None;
        assert(self@ =~= cleared(old(self)@));
    }

    /// Takes over the damping and the inharmonicity of `string`, whatever is
    /// ringing.
    pub fn retune<B: Fn(Binary32) -> Binary32>(&mut self, string: &PluckedString, bend: &B)
        requires
            old(self).wf(),
            forall|inharmonicity: Binary32| bend.requires((inharmonicity,)),
        ensures
            final(self).wf(),
            is_following(old(self)@, *string, *bend, final(self)@),
    {
        self.loop_filter.set_pole(string.damping);
        self.dispersion.set_inharmonicity(string.inharmonicity, bend);
    }

    /// Strikes the string: what was sounding is gone, the burst that `plan` lays
    /// out is in the line, and the hammer stays pending where it would have been
    /// on a string that does not move for longer than the burst, `contact_samples`
    /// being for how long, and has not left this one.
    pub fn strike<
        F: Fn(S, Binary32, Binary32) -> (S, Binary32),
        L: Fn(S) -> bool,
        D: Fn(Binary32, Binary32) -> Binary32,
    >(
        &mut self,
        plan: &StrikePlan,
        contact_samples: usize,
        start: Striker<S>,
        step: &F,
        has_left: &L,
        difference: &D,
    )
        requires
            old(self).wf(),
            plan.comb_delay == 0 || plan.burst_length + plan.comb_delay <= old(self).line@.len(),
            contact_samples <= MAX_CONTACT_SAMPLES,
            forall|felt: S, incoming: Binary32, drawn: Binary32|
                step.requires((felt, incoming, drawn)),
            forall|state: S| has_left.requires((state,)),
            forall|own: Binary32, earlier: Binary32| difference.requires((own, earlier)),
        ensures
            final(self).wf(),
            final(self)@ == (PathState {
                line: final(self)@.line,
                pending: final(self)@.pending,
                ..cleared(old(self)@)
            }),
            is_struck(
                *plan,
                contact_samples,
                start,
                *step,
                *has_left,
                *difference,
                old(self)@.line.len(),
                final(self)@,
            ),
    {
        self.clear();
        let ghost still = self.line@;
        let silence = Binary32::from_bits(0);
        let end = plan.write_excitation(&mut self.line, silence, start, step, difference);
        let left = has_left(end.felt);
        self.pending =
        PendingContact::after_burst(end, contact_samples, plan.burst_length, left);
        proof {
            let (states, samples) = choose|states: Seq<Striker<S>>, samples: Seq<Binary32>|
                {
                    &&& #[trigger] plan.is_burst(still, silence, start, *step, states, samples)
                    &&& samples.len() == plan.burst_length
                    &&& end == states.last()
                    &&& plan.is_combed(
                        crate::excitation::written(still, samples),
                        *difference,
                        self.line@,
                    )
                };
            assert(is_strike(
                *plan,
                contact_samples,
                start,
                *step,
                *difference,
                still.len(),
                self@,
                states,
                samples,
                left,
            ));
        }
    }

    /// Reads what arrives at the bridge end of a string whose loop is `loop_delay`
    /// long. `interpolate` works it out from the delay, the three samples around it
    /// and what was read before.
    pub fn read_bridge_tap<I: Fn(Binary32, Binary32, Binary32, Binary32, Binary32) -> Binary32>(
        &mut self,
        loop_delay: Binary32,
        interpolate: &I,
    ) -> (tap: Binary32)
        requires
            old(self).wf(),
            forall|delay: Binary32, a: Binary32, b: Binary32, c: Binary32, last: Binary32|
                interpolate.requires((delay, a, b, c, last)),
        ensures
            final(self).wf(),
            is_read(old(self)@, loop_delay, *interpolate, final(self)@, tap),
    {
        let taps = self.line.read_interpolated(loop_delay);
        let newer = if taps.whole == 0 {
            taps.earlier
        } else {
            self.line.read(taps.whole - 1)
        };
        proof {
            if taps.whole > 0 {
                vstd::arithmetic::div_mod::lemma_small_mod(
                    (taps.whole - 1) as nat,
                    self.line@.len(),
                );
            }
        }
        let read = interpolate(taps.delay, newer, taps.earlier, taps.later, self.last_tap);
        assert(interpolate.ensures(
            (taps.delay, newer, taps.earlier, taps.later, self.last_tap),
            read,
        ));
        self.last_tap = math::flush_denormal(read);
        self.last_tap
    }

    /// Runs what arrived at the bridge end through the string's own filters.
    pub fn disperse<
        A: Fn(Binary32, Binary32, Binary32) -> Binary32,
        M: Fn(Binary32, Binary32, Binary32) -> Binary32,
        F: Fn(Binary32, Binary32, Binary32) -> Binary32,
        E: Fn(Binary32, Binary32, Binary32) -> Binary32,
    >(&mut self, tap: Binary32, average: &A, smooth: &M, feed: &F, emit: &E) -> (dispersed:
        Binary32)
        requires
            old(self).wf(),
            forall|a: Binary32, b: Binary32, c: Binary32| average.requires((a, b, c)),
            forall|a: Binary32, b: Binary32, c: Binary32| smooth.requires((a, b, c)),
            forall|a: Binary32, b: Binary32, c: Binary32| feed.requires((a, b, c)),
            forall|a: Binary32, b: Binary32, c: Binary32| emit.requires((a, b, c)),
        ensures
            final(self).wf(),
            is_dispersed(
                old(self)@,
                tap,
                *average,
                *smooth,
                *feed,
                *emit,
                final(self)@,
                dispersed,
            ),
    {
        let filtered = self.loop_filter.process(tap, average, smooth);
        let dispersed = self.dispersion.process(filtered, feed, emit);
        assert(filter::is_filtered(
            old(self)@.loop_filter,
            tap,
            *average,
            *smooth,
            self@.loop_filter,
            filtered,
        ));
        assert(dispersion::is_bent(
            old(self)@.sections,
            old(self)@.active,
            filtered,
            *feed,
            *emit,
            self@.sections,
            dispersed,
        ));
        dispersed
    }

    /// Completes the sample whose `tap` has been dispersed and `mixed`: the hammer
    /// pushes on, what is reflected goes back into the line, and what is heard is
    /// returned, with the string's level following it.
    pub fn write_mixed_feedback<
        F: Fn(S, Binary32, Binary32) -> (S, Binary32),
        L: Fn(S) -> bool,
        B: Fn(Binary32, Binary32, Binary32, Binary32) -> Binary32,
        P: Fn(Binary32, Binary32) -> Binary32,
        R: Fn(Binary32, Binary32, Binary32, Binary32) -> Binary32,
    >(
        &mut self,
        string: &mut PluckedString,
        tap: Binary32,
        mixed: Binary32,
        coupling: Binary32,
        step: &F,
        has_left: &L,
        block: &B,
        times: &P,
        reflect: &R,
    ) -> (output: Binary32)
        requires
            old(self).wf(),
            forall|felt: S, incoming: Binary32, drawn: Binary32|
                step.requires((felt, incoming, drawn)),
            forall|state: S| has_left.requires((state,)),
            forall|a: Binary32, b: Binary32, c: Binary32, d: Binary32| block.requires((a, b, c, d)),
            forall|a: Binary32, b: Binary32| times.requires((a, b)),
            forall|a: Binary32, b: Binary32, c: Binary32, d: Binary32|
                reflect.requires((a, b, c, d)),
        ensures
            final(self).wf(),
            is_fed_back(
                *old(string),
                old(self)@,
                tap,
                mixed,
                coupling,
                *step,
                *has_left,
                *block,
                *times,
                *reflect,
                final(self)@,
                output,
            ),
            string::is_followed(*old(string), output, *times, *final(string)),
            old(string).wf() ==> final(string).wf(),
    {
        let pushed = PendingContact::next_contact_sample(
            &mut self.pending,
            tap,
            Binary32::from_bits(0),
            step,
            has_left,
        );
        let output = self.dc_blocker.process(tap, block);
        string.write_mixed_feedback(
            &mut self.line,
            mixed,
            coupling,
            pushed,
            output,
            times,
            reflect,
        );
        output
    }
}

/// `tap` is what arrives at the bridge end of a path in the state `before`, and
/// `after` its state then.
pub open spec fn is_read<
    S,
    I: Fn(Binary32, Binary32, Binary32, Binary32, Binary32) -> Binary32,
>(
    before: PathState<S>,
    loop_delay: Binary32,
    interpolate: I,
    after: PathState<S>,
    tap: Binary32,
) -> bool {
    let delay = math::bounded(
        loop_delay,
        Binary32::from_bits(0),
        Binary32::natural(before.line.len() - 1),
    );
    let whole = delay.whole();
    let newer = if whole == 0 {
        0
    } else {
        whole - 1
    };
    &&& exists|read: Binary32|
        {
            &&& tap == #[trigger] math::flushed(read)
            &&& interpolate.ensures(
                (
                    delay,
                    before.line[newer],
                    before.line[whole],
                    before.line[(whole + 1) % before.line.len() as int],
                    before.last_tap,
                ),
                read,
            )
        }
    &&& after == PathState { last_tap: tap, ..before }
}

/// `dispersed` is what the filters of a path in the state `before` make of `tap`,
/// and `after` its state then.
pub open spec fn is_dispersed<
    S,
    A: Fn(Binary32, Binary32, Binary32) -> Binary32,
    M: Fn(Binary32, Binary32, Binary32) -> Binary32,
    F: Fn(Binary32, Binary32, Binary32) -> Binary32,
    E: Fn(Binary32, Binary32, Binary32) -> Binary32,
>(
    before: PathState<S>,
    tap: Binary32,
    average: A,
    smooth: M,
    feed: F,
    emit: E,
    after: PathState<S>,
    dispersed: Binary32,
) -> bool {
    &&& exists|filtered: Binary32|
        {
            &&& #[trigger] filter::is_filtered(
                before.loop_filter,
                tap,
                average,
                smooth,
                after.loop_filter,
                filtered,
            )
            &&& dispersion::is_bent(
                before.sections,
                before.active,
                filtered,
                feed,
                emit,
                after.sections,
                dispersed,
            )
        }
    &&& after == PathState {
        loop_filter: after.loop_filter,
        sections: after.sections,
        ..before
    }
}

/// `output` is what is heard of a path in the state `before` when `mixed` and
/// `coupling` go back into it, and `after` its state then.
pub open spec fn is_fed_back<
    S,
    F: Fn(S, Binary32, Binary32) -> (S, Binary32),
    L: Fn(S) -> bool,
    B: Fn(Binary32, Binary32, Binary32, Binary32) -> Binary32,
    P: Fn(Binary32, Binary32) -> Binary32,
    R: Fn(Binary32, Binary32, Binary32, Binary32) -> Binary32,
>(
    string: PluckedString,
    before: PathState<S>,
    tap: Binary32,
    mixed: Binary32,
    coupling: Binary32,
    step: F,
    has_left: L,
    block: B,
    times: P,
    reflect: R,
    after: PathState<S>,
    output: Binary32,
) -> bool {
    &&& exists|pushed: Binary32|
        {
            &&& #[trigger] hammer::is_injected(
                before.pending,
                tap,
                Binary32::from_bits(0),
                step,
                has_left,
                after.pending,
                pushed,
            )
            &&& string::is_reflected(
                string,
                before.line,
                mixed,
                coupling,
                pushed,
                times,
                reflect,
                after.line,
            )
        }
    &&& filter::is_blocked(before.dc_blocker, tap, block, after.dc_blocker, output)
    &&& after == PathState {
        line: after.line,
        dc_blocker: after.dc_blocker,
        pending: after.pending,
        ..before
    }
}

/// `after` is a string of `length` samples, struck: it holds the combed burst of
/// `samples`, and the hammer in the last of `states` where it is still on the string.
pub open spec fn is_strike<
    S,
    F: Fn(S, Binary32, Binary32) -> (S, Binary32),
    D: Fn(Binary32, Binary32) -> Binary32,
>(
    plan: StrikePlan,
    contact_samples: usize,
    start: Striker<S>,
    step: F,
    difference: D,
    length: nat,
    after: PathState<S>,
    states: Seq<Striker<S>>,
    samples: Seq<Binary32>,
    left: bool,
) -> bool {
    let still = still_line(length);
    &&& plan.is_burst(still, Binary32::from_bits(0), start, step, states, samples)
    &&& samples.len() == plan.burst_length
    &&& plan.is_combed(crate::excitation::written(still, samples), difference, after.line)
    &&& after.pending == if contact_samples > plan.burst_length && !left {
        Some((states.last(), plan.burst_length))
    } else {
        None
    }
}

/// `after` is a string of `length` samples that was struck as `plan` lays out.
pub open spec fn is_struck<
    S,
    F: Fn(S, Binary32, Binary32) -> (S, Binary32),
    L: Fn(S) -> bool,
    D: Fn(Binary32, Binary32) -> Binary32,
>(
    plan: StrikePlan,
    contact_samples: usize,
    start: Striker<S>,
    step: F,
    has_left: L,
    difference: D,
    length: nat,
    after: PathState<S>,
) -> bool {
    exists|states: Seq<Striker<S>>, samples: Seq<Binary32>, left: bool|
        {
            &&& #[trigger] is_strike(
                plan,
                contact_samples,
                start,
                step,
                difference,
                length,
                after,
                states,
                samples,
                left,
            )
            &&& has_left.ensures((states.last().felt,), left)
        }
}

/// Two paths that are the same when cleared are tuned alike.
pub proof fn clearing_shows_tuning<S>(one: PathState<S>, other: PathState<S>)
    requires
        cleared(one) == cleared(other),
    ensures
        is_tuned_like(one, other),
{
    assert(cleared(one).line.len() == one.line.len());
    assert(cleared(other).line.len() == other.line.len());
    assert(cleared(one).sections.len() == one.sections.len());
    assert(cleared(other).sections.len() == other.sections.len());
    assert forall|i: int| 0 <= i < one.sections.len() implies (
    #[trigger] other.sections[i]).coefficient == one.sections[i].coefficient by {
        assert(cleared(one).sections[i].coefficient == one.sections[i].coefficient);
        assert(cleared(other).sections[i].coefficient == other.sections[i].coefficient);
    }
}

/// A strike leaves the line as long as it was.
pub proof fn strikes_keep_the_length<
    S,
    F: Fn(S, Binary32, Binary32) -> (S, Binary32),
    L: Fn(S) -> bool,
    D: Fn(Binary32, Binary32) -> Binary32,
>(
    plan: StrikePlan,
    contact_samples: usize,
    start: Striker<S>,
    step: F,
    has_left: L,
    difference: D,
    length: nat,
    after: PathState<S>,
)
    requires
        length > 0,
        is_struck(plan, contact_samples, start, step, has_left, difference, length, after),
    ensures
        after.line.len() == length,
{
    let (states, samples, left) = choose|
        states: Seq<Striker<S>>,
        samples: Seq<Binary32>,
        left: bool,
    |
        #[trigger] is_strike(
            plan,
            contact_samples,
            start,
            step,
            difference,
            length,
            after,
            states,
            samples,
            left,
        ) && has_left.ensures((states.last().felt,), left);
    crate::excitation::writing_keeps_the_length(still_line(length), samples);
}

/// One strike is one strike, however often it is played: two strings of one length
/// that were struck alike, whatever they had sounded before, hold the same samples
/// and the same hammer.
pub proof fn strikes_sound_alike<
    S,
    F: Fn(S, Binary32, Binary32) -> (S, Binary32),
    L: Fn(S) -> bool,
    D: Fn(Binary32, Binary32) -> Binary32,
>(
    plan: StrikePlan,
    contact_samples: usize,
    start: Striker<S>,
    step: F,
    has_left: L,
    difference: D,
    length: nat,
    first: PathState<S>,
    second: PathState<S>,
)
    requires
        outcome::decided_by_three(step),
        outcome::decided(has_left),
        outcome::decided_by_two(difference),
        is_struck(plan, contact_samples, start, step, has_left, difference, length, first),
        is_struck(plan, contact_samples, start, step, has_left, difference, length, second),
    ensures
        first.line == second.line,
        first.pending == second.pending,
{
    let still = still_line(length);
    let (states, samples, left) = choose|states: Seq<Striker<S>>, samples: Seq<Binary32>, left: bool|
        #[trigger] is_strike(
            plan,
            contact_samples,
            start,
            step,
            difference,
            length,
            first,
            states,
            samples,
            left,
        ) && has_left.ensures((states.last().felt,), left);
    let (other_states, other_samples, other_left) = choose|
        states: Seq<Striker<S>>,
        samples: Seq<Binary32>,
        left: bool,
    |
        #[trigger] is_strike(
            plan,
            contact_samples,
            start,
            step,
            difference,
            length,
            second,
            states,
            samples,
            left,
        ) && has_left.ensures((states.last().felt,), left);
    crate::excitation::strikes_repeat(
        plan,
        still,
        Binary32::from_bits(0),
        start,
        step,
        states,
        samples,
        other_states,
        other_samples,
    );
    let line = crate::excitation::written(still, samples);
    assert forall|age: int| 0 <= age < line.len() implies #[trigger] first.line[age]
        == second.line[age] by {
        if plan.comb_delay > 0 && age < plan.burst_length {
            assert(difference.ensures(
                (line[age], line[age + plan.comb_delay]),
                first.line[age],
            ));
            assert(difference.ensures(
                (line[age], line[age + plan.comb_delay]),
                second.line[age],
            ));
        }
    }
    assert(first.line =~= second.line);
}

/// What arrives at the bridge end is one sample where interpolating has one outcome.
pub proof fn reading_is_decided<
    S,
    I: Fn(Binary32, Binary32, Binary32, Binary32, Binary32) -> Binary32,
>(
    before: PathState<S>,
    loop_delay: Binary32,
    interpolate: I,
    after: PathState<S>,
    tap: Binary32,
    other: PathState<S>,
    other_tap: Binary32,
)
    requires
        outcome::decided_by_five(interpolate),
        is_read(before, loop_delay, interpolate, after, tap),
        is_read(before, loop_delay, interpolate, other, other_tap),
    ensures
        after == other,
        tap == other_tap,
{
}

/// What the filters make of a sample is one sample where their steps have one outcome.
pub proof fn dispersing_is_decided<
    S,
    A: Fn(Binary32, Binary32, Binary32) -> Binary32,
    M: Fn(Binary32, Binary32, Binary32) -> Binary32,
    F: Fn(Binary32, Binary32, Binary32) -> Binary32,
    E: Fn(Binary32, Binary32, Binary32) -> Binary32,
>(
    before: PathState<S>,
    tap: Binary32,
    average: A,
    smooth: M,
    feed: F,
    emit: E,
    after: PathState<S>,
    dispersed: Binary32,
    other: PathState<S>,
    other_dispersed: Binary32,
)
    requires
        outcome::decided_by_three(average),
        outcome::decided_by_three(smooth),
        outcome::decided_by_three(feed),
        outcome::decided_by_three(emit),
        0 <= before.active <= before.sections.len(),
        is_dispersed(before, tap, average, smooth, feed, emit, after, dispersed),
        is_dispersed(before, tap, average, smooth, feed, emit, other, other_dispersed),
    ensures
        after == other,
        dispersed == other_dispersed,
{
    let one = choose|filtered: Binary32|
        {
            &&& #[trigger] filter::is_filtered(
                before.loop_filter,
                tap,
                average,
                smooth,
                after.loop_filter,
                filtered,
            )
            &&& dispersion::is_bent(
                before.sections,
                before.active,
                filtered,
                feed,
                emit,
                after.sections,
                dispersed,
            )
        };
    let two = choose|filtered: Binary32|
        {
            &&& #[trigger] filter::is_filtered(
                before.loop_filter,
                tap,
                average,
                smooth,
                other.loop_filter,
                filtered,
            )
            &&& dispersion::is_bent(
                before.sections,
                before.active,
                filtered,
                feed,
                emit,
                other.sections,
                other_dispersed,
            )
        };
    assert(one == two);
    dispersion::bending_is_decided(
        before.sections,
        before.active,
        one,
        feed,
        emit,
        after.sections,
        dispersed,
        other.sections,
        other_dispersed,
    );
}

/// What goes back into a string, and what is heard of it, is one thing where the
/// steps have one outcome.
pub proof fn feeding_back_is_decided<
    S,
    F: Fn(S, Binary32, Binary32) -> (S, Binary32),
    L: Fn(S) -> bool,
    B: Fn(Binary32, Binary32, Binary32, Binary32) -> Binary32,
    P: Fn(Binary32, Binary32) -> Binary32,
    R: Fn(Binary32, Binary32, Binary32, Binary32) -> Binary32,
>(
    string: PluckedString,
    before: PathState<S>,
    tap: Binary32,
    mixed: Binary32,
    coupling: Binary32,
    step: F,
    has_left: L,
    block: B,
    times: P,
    reflect: R,
    after: PathState<S>,
    output: Binary32,
    other: PathState<S>,
    other_output: Binary32,
)
    requires
        outcome::decided_by_three(step),
        outcome::decided(has_left),
        outcome::decided_by_four(block),
        outcome::decided_by_two(times),
        outcome::decided_by_four(reflect),
        is_fed_back(
            string,
            before,
            tap,
            mixed,
            coupling,
            step,
            has_left,
            block,
            times,
            reflect,
            after,
            output,
        ),
        is_fed_back(
            string,
            before,
            tap,
            mixed,
            coupling,
            step,
            has_left,
            block,
            times,
            reflect,
            other,
            other_output,
        ),
    ensures
        after == other,
        output == other_output,
{
    let one = choose|pushed: Binary32|
        {
            &&& #[trigger] hammer::is_injected(
                before.pending,
                tap,
                Binary32::from_bits(0),
                step,
                has_left,
                after.pending,
                pushed,
            )
            &&& string::is_reflected(
                string,
                before.line,
                mixed,
                coupling,
                pushed,
                times,
                reflect,
                after.line,
            )
        };
    let two = choose|pushed: Binary32|
        {
            &&& #[trigger] hammer::is_injected(
                before.pending,
                tap,
                Binary32::from_bits(0),
                step,
                has_left,
                other.pending,
                pushed,
            )
            &&& string::is_reflected(
                string,
                before.line,
                mixed,
                coupling,
                pushed,
                times,
                reflect,
                other.line,
            )
        };
    assert(one == two && after.pending == other.pending);
    assert(after.line == other.line);
    assert(output == other_output && after.dc_blocker == other.dc_blocker);
}

} // verus!
