//! What a strike leaves in a string's path, sample by sample, and that every string of a
//! note is struck.
use crate::binary32::Binary32;
use crate::bounds_laws::lands;
use crate::contact_laws;
use crate::delay::DelayLine;
use crate::dispersion;
use crate::engine::{Action, Engine};
use crate::excitation;
use crate::filter::{DcBlocker, LoopFilter};
use crate::hammer;
use crate::hammer::{HammerConfig, Striker};
use crate::noise::Xorshift32;
use crate::path_laws::is_stable_part;
use crate::playing::Settings;
use crate::rendering;
use crate::sounding;
use crate::sounding::Arithmetic;
use crate::soundboard::{Resonator, ResonatorBank, SoundboardMode};
use crate::striking::Hammers;
use crate::string::{PluckedString, StrikePlan};
use crate::string_laws;
use crate::unison::UnisonGroup;
use crate::waveguide;
use crate::waveguide::{PathState, Waveguide};
use vstd::prelude::*;

verus! {

/// Clearing a path leaves nothing to be heard in it, at any delay and in any section,
/// and no contact; how it is tuned stays.
pub proof fn cleared_paths_are_still<
    S: Copy,
>(
    before: PathState<S>,
    after: PathState<S>,
)
    requires
        exists|path: &mut Waveguide<S>| #[trigger]
            call_ensures(Waveguide::<S>::clear, (path,), ())
                && (*path)@ == before && (*final(path))@ == after,
    ensures
        after.line.len() == before.line.len(),
        forall|age: int| 0 <= age < before.line.len() ==> (#[trigger] after.line[age]).bits == 0,
        after.loop_filter == (
            LoopFilter {
                state: Binary32 { bits: 0 },
                last_input: Binary32 { bits: 0 },
                ..before.loop_filter
            }
        ),
        after.dc_blocker == (
            DcBlocker {
                last_input: Binary32 { bits: 0 },
                last_output: Binary32 { bits: 0 },
                ..before.dc_blocker
            }
        ),
        after.sections.len() == before.sections.len(),
        forall|i: int|
            0 <= i < before.sections.len()
                ==> (#[trigger] after.sections[i]).state.bits == 0
                    && after.sections[i].coefficient == before.sections[i].coefficient,
        after.active == before.active,
        after.last_tap.bits == 0,
        after.pending is None,
{
}

/// A path that is retuned follows its string: its pole is the string's damping, kept
/// stable, every one of its sections is bent for the string's inharmonicity, and what
/// it was sounding goes on.
pub proof fn retuned_paths_follow_their_string<
    S: Copy,
    B: Fn(Binary32) -> Binary32,
>(
    before: PathState<S>,
    after: PathState<S>,
    string: &PluckedString,
    bend: &B,
)
    requires
        before.sections.len() == 8,
        exists|path: &mut Waveguide<S>| #[trigger]
            call_ensures(Waveguide::<S>::retune::<B>, (path, string, bend), ())
                && (*path)@ == before && (*final(path))@ == after,
    ensures
        after.line == before.line,
        after.pending == before.pending,
        after.dc_blocker == before.dc_blocker,
        after.last_tap == before.last_tap,
        after.active == before.active,
        lands(string.damping, 0, 0x3f7f_f972, after.loop_filter.pole),
        after.loop_filter == (LoopFilter { pole: after.loop_filter.pole, ..before.loop_filter }),
        after.sections.len() == 8,
        forall|i: int|
            0 <= i < 8
                ==> (#[trigger] after.sections[i]).state == before.sections[i].state
                    && after.sections[i].coefficient == after.sections[0].coefficient,
        exists|b: Binary32, scaled: Binary32|
            {
                &&& #[trigger] lands(string.inharmonicity, 0, 0x3d4c_cccd, b)
                &&& #[trigger] bend.ensures((b,), scaled)
                &&& is_stable_part(scaled, after.sections[0].coefficient)
            },
{
    let coefficient = choose|coefficient: Binary32|
        {
            &&& #[trigger] dispersion::is_coefficient(string.inharmonicity, *bend, coefficient)
            &&& forall|i: int|
                0 <= i < after.sections.len() ==> (#[trigger] after.sections[i]).coefficient
                    == coefficient
        };
    assert(after.sections[0].coefficient == coefficient);
    let b = dispersion::playable(string.inharmonicity);
    assert(lands(string.inharmonicity, 0, 0x3d4c_cccd, b));
}

/// What stands in a line at `age` once `samples` have been written to it, the newest at no
/// age: the samples by their age, and behind them what stood there before.
pub open spec fn stands_at<T>(line: Seq<T>, samples: Seq<T>, age: int) -> T {
    if age < samples.len() {
        samples[samples.len() - 1 - age]
    } else {
        line[age - samples.len()]
    }
}

proof fn lemma_stands_at<T>(line: Seq<T>, samples: Seq<T>, age: int)
    requires
        0 <= age < line.len(),
    ensures
        excitation::written(line, samples).len() == line.len(),
        excitation::written(line, samples)[age] == stands_at(line, samples, age),
    decreases samples.len(),
{
    if samples.len() > 0 {
        excitation::writing_keeps_the_length(line, samples.drop_last());
        if age > 0 {
            lemma_stands_at(line, samples.drop_last(), age - 1);
        }
    }
}

/// `samples` are what a striker writes into a line, one after the other: each is a step on
/// from where the one before left it, with a fresh draw of its noise, and with what comes
/// back to it along the line, which is silence until the burst has gone once round.
pub open spec fn is_written<T, S, F: Fn(S, T, Binary32) -> (S, T)>(
    plan: StrikePlan,
    line: Seq<T>,
    silence: T,
    start: Striker<S>,
    step: F,
    states: Seq<Striker<S>>,
    samples: Seq<T>,
) -> bool {
    &&& samples.len() == plan.burst_length
    &&& states.len() == plan.burst_length + 1
    &&& states[0] == start
    &&& forall|i: int|
        0 <= i < plan.burst_length ==> {
            &&& step.ensures(
                (
                    states[i].felt,
                    if i < plan.reflected_from {
                        silence
                    } else {
                        stands_at(line, samples.take(i), plan.reflection_delay as int)
                    },
                    states[i].noise.sample(),
                ),
                (states[i + 1].felt, #[trigger] samples[i]),
            )
            &&& states[i + 1].noise == states[i].noise.stepped()
        }
}

/// A line holds at `age` what was written there, less what was written a comb's delay
/// earlier where the comb reaches; behind the burst it holds what it held.
pub open spec fn is_left_at<T, D: Fn(T, T) -> T>(
    plan: StrikePlan,
    line: Seq<T>,
    samples: Seq<T>,
    difference: D,
    age: int,
    left: T,
) -> bool {
    if plan.comb_delay > 0 && age < plan.burst_length {
        difference.ensures(
            (
                stands_at(line, samples, age),
                stands_at(line, samples, age + plan.comb_delay),
            ),
            left,
        )
    } else {
        left == stands_at(line, samples, age)
    }
}

proof fn lemma_written<
    T,
    S,
    F: Fn(S, T, Binary32) -> (S, T),
    D: Fn(T, T) -> T,
>(
    plan: StrikePlan,
    line: Seq<T>,
    silence: T,
    start: Striker<S>,
    step: F,
    difference: D,
    states: Seq<Striker<S>>,
    samples: Seq<T>,
    after: Seq<T>,
)
    requires
        line.len() > 0,
        plan.reflection_delay < line.len(),
        plan.comb_delay == 0 || plan.burst_length + plan.comb_delay <= line.len(),
        plan.is_burst(line, silence, start, step, states, samples),
        samples.len() == plan.burst_length,
        plan.is_combed(excitation::written(line, samples), difference, after),
    ensures
        is_written(plan, line, silence, start, step, states, samples),
        after.len() == line.len(),
        forall|age: int|
            0 <= age < line.len() ==> is_left_at(
                plan,
                line,
                samples,
                difference,
                age,
                #[trigger] after[age],
            ),
{
    vstd::arithmetic::div_mod::lemma_small_mod(plan.reflection_delay as nat, line.len());
    assert forall|i: int| 0 <= i < plan.burst_length implies {
        &&& step.ensures(
            (
                states[i].felt,
                if i < plan.reflected_from {
                    silence
                } else {
                    stands_at(line, samples.take(i), plan.reflection_delay as int)
                },
                states[i].noise.sample(),
            ),
            (states[i + 1].felt, #[trigger] samples[i]),
        )
        &&& states[i + 1].noise == states[i].noise.stepped()
    } by {
        lemma_stands_at(line, samples.take(i), plan.reflection_delay as int);
        assert(hammer::is_taken(
            step,
            states[i],
            plan.incoming(line, samples, i, silence),
            states[i + 1],
            samples[i],
        ));
    }
    excitation::writing_keeps_the_length(line, samples);
    assert forall|age: int| 0 <= age < line.len() implies is_left_at(
        plan,
        line,
        samples,
        difference,
        age,
        #[trigger] after[age],
    ) by {
        lemma_stands_at(line, samples, age);
        if plan.comb_delay > 0 && age < plan.burst_length {
            lemma_stands_at(line, samples, age + plan.comb_delay);
            assert(difference.ensures(
                (
                    excitation::written(line, samples)[age],
                    excitation::written(line, samples)[age + plan.comb_delay],
                ),
                after[age],
            ));
        }
    }
}

/// A burst is written sample by sample, every one of them from the first to the last,
/// and the comb then takes from every sample of the burst the one its delay earlier.
pub proof fn every_sample_of_a_burst_is_written<
    T: Copy,
    S: Copy,
    F: Fn(S, T, Binary32) -> (S, T),
    D: Fn(T, T) -> T,
>(
    plan: &StrikePlan,
    before: Seq<T>,
    after: Seq<T>,
    silence: T,
    start: Striker<S>,
    end: Striker<S>,
    step: &F,
    difference: &D,
)
    requires
        before.len() > 0,
        plan.reflection_delay < before.len(),
        plan.comb_delay == 0 || plan.burst_length + plan.comb_delay <= before.len(),
        exists|line: &mut DelayLine<T>| #[trigger]
            call_ensures(
                StrikePlan::write_excitation::<T,
                S,
                F,
                D>,
                (plan, line, silence, start, step, difference),
                end,
            )
                && (*line)@ == before && (*final(line))@ == after,
    ensures
        after.len() == before.len(),
        exists|states: Seq<Striker<S>>, samples: Seq<T>|
            {
                &&& #[trigger] is_written(
                    *plan,
                    before,
                    silence,
                    start,
                    *step,
                    states,
                    samples,
                )
                &&& end == states[plan.burst_length as int]
                &&& forall|age: int|
                    0 <= age < before.len() ==> is_left_at(
                        *plan,
                        before,
                        samples,
                        *difference,
                        age,
                        #[trigger] after[age],
                    )
            },
{
    let (states, samples) = choose|states: Seq<Striker<S>>, samples: Seq<T>|
        {
            &&& #[trigger] plan.is_burst(before, silence, start, *step, states, samples)
            &&& samples.len() == plan.burst_length
            &&& end == states.last()
            &&& plan.is_combed(excitation::written(before, samples), *difference, after)
        };
    lemma_written(*plan, before, silence, start, *step, *difference, states, samples, after);
    assert(is_written(*plan, before, silence, start, *step, states, samples));
}

/// A strike forgets what a path was sounding, and leaves in it the burst of the
/// striker, sample by sample, on a still line; the contact goes on behind the burst
/// where it is longer than that and the hammer has not left. How the path is tuned
/// stays.
pub proof fn strikes_leave_a_burst_on_a_still_line<
    S: Copy,
    F: Fn(S, Binary32, Binary32) -> (S, Binary32),
    L: Fn(S) -> bool,
    D: Fn(Binary32, Binary32) -> Binary32,
>(
    before: PathState<S>,
    after: PathState<S>,
    plan: &StrikePlan,
    contact: usize,
    start: Striker<S>,
    step: &F,
    has_left: &L,
    difference: &D,
)
    requires
        before.line.len() > 0,
        plan.reflection_delay < before.line.len(),
        plan.comb_delay == 0 || plan.burst_length + plan.comb_delay <= before.line.len(),
        exists|path: &mut Waveguide<S>| #[trigger]
            call_ensures(
                Waveguide::<S>::strike::<F,
                L,
                D>,
                (path, plan, contact, start, step, has_left, difference),
                (),
            )
                && (*path)@ == before && (*final(path))@ == after,
    ensures
        after.line.len() == before.line.len(),
        after.active == before.active,
        after.last_tap.bits == 0,
        after.sections.len() == before.sections.len(),
        forall|i: int|
            0 <= i < before.sections.len()
                ==> (#[trigger] after.sections[i]).state.bits == 0
                    && after.sections[i].coefficient == before.sections[i].coefficient,
        after.loop_filter == (
            LoopFilter {
                state: Binary32 { bits: 0 },
                last_input: Binary32 { bits: 0 },
                ..before.loop_filter
            }
        ),
        after.dc_blocker == (
            DcBlocker {
                last_input: Binary32 { bits: 0 },
                last_output: Binary32 { bits: 0 },
                ..before.dc_blocker
            }
        ),
        exists|line: Seq<Binary32>, states: Seq<Striker<S>>, samples: Seq<Binary32>, left: bool|
            {
                &&& line.len() == before.line.len()
                &&& forall|age: int| 0 <= age < line.len() ==> (#[trigger] line[age]).bits == 0
                &&& #[trigger] is_written(
                    *plan,
                    line,
                    Binary32 { bits: 0 },
                    start,
                    *step,
                    states,
                    samples,
                )
                &&& #[trigger] has_left.ensures((states[plan.burst_length as int].felt,), left)
                &&& after.pending is Some <==> contact > plan.burst_length && !left
                &&& after.pending is Some ==> after.pending->0 == (
                    states[plan.burst_length as int],
                    plan.burst_length,
                )
                &&& forall|age: int|
                    0 <= age < line.len() ==> is_left_at(
                        *plan,
                        line,
                        samples,
                        *difference,
                        age,
                        #[trigger] after.line[age],
                    )
            },
{
    let line = waveguide::still_line(before.line.len());
    let (states, samples, left) = choose|
        states: Seq<Striker<S>>,
        samples: Seq<Binary32>,
        left: bool,
    |
        {
            &&& #[trigger] waveguide::is_strike(
                *plan,
                contact,
                start,
                *step,
                *difference,
                before.line.len(),
                after,
                states,
                samples,
                left,
            )
            &&& has_left.ensures((states.last().felt,), left)
        };
    lemma_written(
        *plan,
        line,
        Binary32 { bits: 0 },
        start,
        *step,
        *difference,
        states,
        samples,
        after.line,
    );
    assert(is_written(
        *plan,
        line,
        Binary32 { bits: 0 },
        start,
        *step,
        states,
        samples,
    ));
    assert(has_left.ensures((states[plan.burst_length as int].felt,), left));
}

/// A hammer is measured by its own contact: how long it pushes, how hard at most, and
/// how steep its scaled curve is.
pub proof fn hammers_are_measured_by_their_contact<
    S: Copy,
    W: Copy,
    Y: Fn(Binary32) -> W,
    V: Fn(HammerConfig, Binary32, W, Binary32) -> (W, Binary32),
    O: Fn(HammerConfig, Binary32) -> Binary32,
    U: Fn(Binary32, Binary32) -> Binary32,
    J: Fn(Binary32) -> Binary32,
    K: Fn(PluckedString, Binary32, Binary32, Binary32, usize) -> S,
    Z: Fn(PluckedString) -> Binary32,
    N: Fn(Binary32, Binary32) -> Binary32,
>(
    hammers: &Hammers<S, W, Y, V, O, U, J, K, Z>,
    asked: HammerConfig,
    sane: HammerConfig,
    used: Binary32,
    velocity: Binary32,
    minus: &N,
    measured: (usize, Binary32, Binary32),
)
    requires
        call_ensures(hammer::sanitize_hammer, (asked,), sane),
        call_ensures(hammer::integration_rate, (hammers.sample_rate,), used),
        call_ensures(
            Hammers::<S,
            W,
            Y,
            V,
            O,
            U,
            J,
            K,
            Z>::measure::<N>,
            (hammers, asked, velocity, minus),
            measured,
        ),
    ensures
        exists|
            moving: Seq<W>,
            felt: Seq<Binary32>,
            forces: Seq<Binary32>,
            curve: Seq<Binary32>,
            slopes: Seq<Binary32>,
            steepest: Binary32,
        |
            {
                &&& #[trigger] contact_laws::pushes(
                    velocity,
                    sane,
                    used,
                    moving,
                    felt,
                    forces,
                    hammers.begin,
                    hammers.advance,
                    hammers.force,
                )
                &&& 1 <= measured.0 <= 512
                &&& forces.len() == measured.0
                &&& curve.len() == measured.0
                &&& measured.0 == 512 || felt[measured.0 as int].rank() <= 0
                &&& contact_laws::is_largest(forces, measured.1)
                &&& forall|i: int|
                    0 <= i < measured.0 ==> contact_laws::is_scaled_force(
                        forces[i],
                        measured.1,
                        hammers.scale,
                        #[trigger] curve[i],
                    )
                &&& #[trigger] contact_laws::are_steps(curve, measured.0 as int, *minus, slopes)
                &&& #[trigger] contact_laws::is_steepest(slopes, steepest)
                &&& steepest.rank() > 0x3400_0000 ==> hammers.invert.ensures(
                    (steepest,),
                    measured.2,
                )
                &&& steepest.rank() <= 0x3400_0000 ==> measured.2.bits == 0
            },
{
    let (states, forces, curve) = choose|
        states: Seq<(W, Binary32)>,
        forces: Seq<Binary32>,
        curve: Seq<Binary32>,
    |
        {
            &&& #[trigger] hammers.is_whole_contact(asked, velocity, states, forces)
            &&& forces.len() == measured.0
            &&& hammer::is_peak(forces, measured.1)
            &&& #[trigger] hammer::is_scaled(
                forces,
                measured.0 as int,
                measured.1,
                hammers.scale,
                curve,
            )
            &&& excitation::is_slope_scale(
                curve,
                measured.0 as int,
                *minus,
                hammers.invert,
                measured.2,
            )
        };
    contact_laws::lemma_pushes(
        velocity,
        hammers.sample_rate,
        asked,
        states,
        forces,
        hammers.begin,
        hammers.advance,
        hammers.force,
    );
    let moving = Seq::new(states.len(), |i: int| states[i].0);
    let felt = Seq::new(states.len(), |i: int| states[i].1);
    assert(contact_laws::pushes(
        velocity,
        sane,
        used,
        moving,
        felt,
        forces,
        hammers.begin,
        hammers.advance,
        hammers.force,
    ));
    assert(felt[measured.0 as int] == states.last().1);
    assert forall|i: int| 0 <= i < measured.0 implies contact_laws::is_scaled_force(
        forces[i],
        measured.1,
        hammers.scale,
        #[trigger] curve[i],
    ) by {
        assert(hammer::is_share(forces[i], true, measured.1, hammers.scale, curve[i]));
    }
    let (slopes, steepest) = choose|slopes: Seq<Binary32>, steepest: Binary32|
        {
            &&& #[trigger] excitation::are_slopes(curve, measured.0 as int, *minus, slopes)
            &&& #[trigger] crate::render::is_loudest(slopes, steepest)
            &&& if (Binary32 { bits: 0x3400_0000 }).below(steepest) {
                hammers.invert.ensures((steepest,), measured.2)
            } else {
                measured.2 == Binary32 { bits: 0 }
            }
        };
    contact_laws::lemma_steepest(slopes, steepest);
    assert(contact_laws::are_steps(curve, measured.0 as int, *minus, slopes));
    assert(contact_laws::is_largest(forces, measured.1));
}

/// A string is struck by its own hammer, at its own seed and as far as its own loop
/// reaches.
pub proof fn strings_are_struck_by_their_own_hammer<
    S: Copy,
    W: Copy,
    Y: Fn(Binary32) -> W,
    V: Fn(HammerConfig, Binary32, W, Binary32) -> (W, Binary32),
    O: Fn(HammerConfig, Binary32) -> Binary32,
    U: Fn(Binary32, Binary32) -> Binary32,
    J: Fn(Binary32) -> Binary32,
    K: Fn(PluckedString, Binary32, Binary32, Binary32, usize) -> S,
    Z: Fn(PluckedString) -> Binary32,
    H: Fn(S, Binary32, Binary32) -> (S, Binary32),
    L: Fn(S) -> bool,
    N: Fn(Binary32, Binary32) -> Binary32,
>(
    hammers: &Hammers<S, W, Y, V, O, U, J, K, Z>,
    string: &PluckedString,
    velocity: Binary32,
    before: PathState<S>,
    after: PathState<S>,
    step: &H,
    has_left: &L,
    minus: &N,
)
    requires
        exists|path: &mut Waveguide<S>| #[trigger]
            call_ensures(
                Hammers::<S,
                W,
                Y,
                V,
                O,
                U,
                J,
                K,
                Z>::strike::<H,
                L,
                N>,
                (hammers, string, velocity, path, step, has_left, minus),
                (),
            )
                && (*path)@ == before && (*final(path))@ == after,
    ensures
        is_struck_by(*hammers, *string, velocity, *step, *has_left, *minus, before, after),
{
    assert(hammers.strikes(*string, velocity, *step, *has_left, *minus, before, after));
}

/// A path is struck as its string says: by the contact of the string's own hammer at
/// `velocity`, with the string's own seed, as far as its own loop reaches.
pub open spec fn is_struck_by<
    S: Copy,
    W: Copy,
    Y: Fn(Binary32) -> W,
    V: Fn(HammerConfig, Binary32, W, Binary32) -> (W, Binary32),
    O: Fn(HammerConfig, Binary32) -> Binary32,
    U: Fn(Binary32, Binary32) -> Binary32,
    J: Fn(Binary32) -> Binary32,
    K: Fn(PluckedString, Binary32, Binary32, Binary32, usize) -> S,
    Z: Fn(PluckedString) -> Binary32,
    H: Fn(S, Binary32, Binary32) -> (S, Binary32),
    L: Fn(S) -> bool,
    N: Fn(Binary32, Binary32) -> Binary32,
>(
    hammers: Hammers<S, W, Y, V, O, U, J, K, Z>,
    string: PluckedString,
    velocity: Binary32,
    step: H,
    has_left: L,
    minus: N,
    before: PathState<S>,
    after: PathState<S>,
) -> bool {
    exists|
        contact: usize,
        peak: Binary32,
        slope: Binary32,
        felt: S,
        reach: Binary32,
    |
        {
            &&& #[trigger] hammers.measures(string.hammer, velocity, minus, contact, peak, slope)
            &&& #[trigger] hammers.start.ensures((string, velocity, peak, slope, contact), felt)
            &&& #[trigger] hammers.reach.ensures((string,), reach)
            &&& waveguide::is_struck(
                string.plan(reach),
                contact,
                Striker { felt, noise: Xorshift32::seeded(string.seed) },
                step,
                has_left,
                minus,
                before.line.len(),
                after,
            )
            &&& after == PathState {
                line: after.line,
                pending: after.pending,
                ..waveguide::cleared(before)
            }
        }
}

/// A note that is struck has every one of its strings struck, whatever its place, each
/// by its own hammer and seed and all at one velocity; the paths beyond its strings are
/// left alone.
pub proof fn every_string_of_a_note_is_struck<
    S: Copy,
    I: Fn(Binary32, Binary32, Binary32, Binary32, Binary32) -> Binary32,
    A: Fn(Binary32, Binary32, Binary32) -> Binary32,
    M: Fn(Binary32, Binary32, Binary32) -> Binary32,
    F: Fn(Binary32, Binary32, Binary32) -> Binary32,
    E: Fn(Binary32, Binary32, Binary32) -> Binary32,
    H: Fn(S, Binary32, Binary32) -> (S, Binary32),
    L: Fn(S) -> bool,
    B: Fn(Binary32, Binary32, Binary32, Binary32) -> Binary32,
    X: Fn(Binary32, Binary32) -> Binary32,
    R: Fn(Binary32, Binary32, Binary32, Binary32) -> Binary32,
    P: Fn(Binary32, Binary32) -> Binary32,
    N: Fn(Binary32, Binary32) -> Binary32,
    Q: Fn(Binary32, usize) -> Binary32,
    D: Fn(Binary32, Binary32, Binary32) -> Binary32,
    W: Copy,
    Y: Fn(Binary32) -> W,
    V: Fn(HammerConfig, Binary32, W, Binary32) -> (W, Binary32),
    O: Fn(HammerConfig, Binary32) -> Binary32,
    U: Fn(Binary32, Binary32) -> Binary32,
    J: Fn(Binary32) -> Binary32,
    K: Fn(PluckedString, Binary32, Binary32, Binary32, usize) -> S,
    Z: Fn(PluckedString) -> Binary32,
>(
    arithmetic: &Arithmetic<S, I, A, M, F, E, H, L, B, X, R, P, N, Q, D>,
    hammers: &Hammers<S, W, Y, V, O, U, J, K, Z>,
    group: &UnisonGroup,
    before: Seq<PathState<S>>,
    after: Seq<PathState<S>>,
    velocity: Binary32,
    place: int,
)
    requires
        group.wf(),
        0 <= place < before.len(),
        exists|lines: &mut Vec<Waveguide<S>>| #[trigger]
            call_ensures(
                Arithmetic::<S, I, A, M, F, E, H, L, B, X, R, P, N, Q, D>::strike_note::<W, Y, V, O, U, J, K, Z>,
                (arithmetic, group, lines, velocity, hammers),
                (),
            ) && sounding::states((*lines)@) == before && sounding::states((*final(lines))@)
                == after,
    ensures
        after.len() == before.len(),
        string_laws::string_of(*group, place) is None ==> after[place] == before[place],
        string_laws::string_of(*group, place) is Some ==> is_struck_by(
            *hammers,
            string_laws::string_of(*group, place)->0,
            velocity,
            arithmetic.step,
            arithmetic.has_left,
            arithmetic.minus,
            before[place],
            after[place],
        ),
{
    assert(after[place] == after[place]);
    if string_laws::string_of(*group, place) is Some {
        let string = string_laws::string_of(*group, place)->0;
        assert(group.at(place)->0 == string);
        assert(hammers.strikes(
            string,
            velocity,
            arithmetic.step,
            arithmetic.has_left,
            arithmetic.minus,
            before[place],
            after[place],
        ));
        let (contact, peak, slope, felt, reach) = choose|
            contact: usize,
            peak: Binary32,
            slope: Binary32,
            felt: S,
            reach: Binary32,
        |
            {
                &&& #[trigger] hammers.measures(
                    string.hammer,
                    velocity,
                    arithmetic.minus,
                    contact,
                    peak,
                    slope,
                )
                &&& #[trigger] hammers.start.ensures((string, velocity, peak, slope, contact), felt)
                &&& #[trigger] hammers.reach.ensures((string,), reach)
                &&& waveguide::is_struck(
                    string.plan(reach),
                    contact,
                    Striker { felt, noise: Xorshift32::seeded(string.seed) },
                    arithmetic.step,
                    arithmetic.has_left,
                    arithmetic.minus,
                    before[place].line.len(),
                    after[place],
                )
                &&& after[place] == PathState {
                    line: after[place].line,
                    pending: after[place].pending,
                    ..waveguide::cleared(before[place])
                }
            };
        assert(hammers.measures(
            string.hammer,
            velocity,
            arithmetic.minus,
            contact,
            peak,
            slope,
        ));
    }
}

/// Striking a key strikes every one of its strings, whatever its place, and touches no
/// other key and not the board.
pub proof fn strikes_reach_the_paths_of_their_key<
    S: Copy,
    I: Fn(Binary32, Binary32, Binary32, Binary32, Binary32) -> Binary32,
    A: Fn(Binary32, Binary32, Binary32) -> Binary32,
    M: Fn(Binary32, Binary32, Binary32) -> Binary32,
    F: Fn(Binary32, Binary32, Binary32) -> Binary32,
    E: Fn(Binary32, Binary32, Binary32) -> Binary32,
    H: Fn(S, Binary32, Binary32) -> (S, Binary32),
    L: Fn(S) -> bool,
    B: Fn(Binary32, Binary32, Binary32, Binary32) -> Binary32,
    X: Fn(Binary32, Binary32) -> Binary32,
    R: Fn(Binary32, Binary32, Binary32, Binary32) -> Binary32,
    P: Fn(Binary32, Binary32) -> Binary32,
    N: Fn(Binary32, Binary32) -> Binary32,
    Q: Fn(Binary32, usize) -> Binary32,
    D: Fn(Binary32, Binary32, Binary32) -> Binary32,
    W: Copy,
    Y: Fn(Binary32) -> W,
    V: Fn(HammerConfig, Binary32, W, Binary32) -> (W, Binary32),
    O: Fn(HammerConfig, Binary32) -> Binary32,
    U: Fn(Binary32, Binary32) -> Binary32,
    J: Fn(Binary32) -> Binary32,
    K: Fn(PluckedString, Binary32, Binary32, Binary32, usize) -> S,
    Z: Fn(PluckedString) -> Binary32,
    C: Copy,
    Bend: Fn(Binary32) -> Binary32,
    Retune: Fn(PluckedString) -> Binary32,
    Detune: Fn(Binary32, Binary32) -> Binary32,
    Resonate: Fn(SoundboardMode) -> C,
    Power: Fn(Binary32, Binary32) -> Binary32,
>(
    engine: &Engine,
    arithmetic: &Arithmetic<S, I, A, M, F, E, H, L, B, X, R, P, N, Q, D>,
    hammers: &Hammers<S, W, Y, V, O, U, J, K, Z>,
    settings: &Settings<C, Bend, Retune, Detune, Resonate, Power>,
    before: Seq<Seq<PathState<S>>>,
    after: Seq<Seq<PathState<S>>>,
    board: Seq<Resonator<C>>,
    board_after: Seq<Resonator<C>>,
    key: usize,
    velocity: Binary32,
    other: int,
    place: int,
)
    requires
        engine@.voices.len() == 88,
        before.len() == 88,
        key < 88,
        engine@.voices[key as int].strings is Some,
        engine@.voices[key as int].strings->0.wf(),
        0 <= place < before[key as int].len(),
        exists|lines: &mut Vec<Vec<Waveguide<S>>>, bank: &mut ResonatorBank<C>|
            {
                &&& #[trigger] call_ensures(
                    Engine::perform::<
                        S, I, A, M, F, E, H, L, B, X, R, P, N, Q, D,
                        W, Y, V, O, U, J, K, Z,
                        C, Bend, Retune, Detune, Resonate, Power,
                    >,
                    (
                        engine,
                        Action::Strike { key, velocity },
                        lines,
                        bank,
                        arithmetic,
                        hammers,
                        settings,
                    ),
                    (),
                )
                &&& rendering::all_states((*lines)@) == before
                &&& rendering::all_states((*final(lines))@) == after
                &&& (*bank)@ == board
                &&& (*final(bank))@ == board_after
            },
    ensures
        board_after == board,
        after.len() == 88,
        0 <= other < 88 && other != key ==> after[other] == before[other],
        after[key as int].len() == before[key as int].len(),
        string_laws::string_of(engine@.voices[key as int].strings->0, place) is None
            ==> after[key as int][place] == before[key as int][place],
        string_laws::string_of(engine@.voices[key as int].strings->0, place) is Some
            ==> hammers.strikes(
            string_laws::string_of(engine@.voices[key as int].strings->0, place)->0,
            velocity,
            arithmetic.step,
            arithmetic.has_left,
            arithmetic.minus,
            before[key as int][place],
            after[key as int][place],
        ),
{
    let group = engine@.voices[key as int].strings->0;
    assert(group.at(place) == string_laws::string_of(group, place));
    assert(after[key as int][place] == after[key as int][place]);
}

/// Silencing the paths stills every path of every key; the board rings on.
pub proof fn silencing_reaches_every_path<
    S: Copy,
    I: Fn(Binary32, Binary32, Binary32, Binary32, Binary32) -> Binary32,
    A: Fn(Binary32, Binary32, Binary32) -> Binary32,
    M: Fn(Binary32, Binary32, Binary32) -> Binary32,
    F: Fn(Binary32, Binary32, Binary32) -> Binary32,
    E: Fn(Binary32, Binary32, Binary32) -> Binary32,
    H: Fn(S, Binary32, Binary32) -> (S, Binary32),
    L: Fn(S) -> bool,
    B: Fn(Binary32, Binary32, Binary32, Binary32) -> Binary32,
    X: Fn(Binary32, Binary32) -> Binary32,
    R: Fn(Binary32, Binary32, Binary32, Binary32) -> Binary32,
    P: Fn(Binary32, Binary32) -> Binary32,
    N: Fn(Binary32, Binary32) -> Binary32,
    Q: Fn(Binary32, usize) -> Binary32,
    D: Fn(Binary32, Binary32, Binary32) -> Binary32,
    W: Copy,
    Y: Fn(Binary32) -> W,
    V: Fn(HammerConfig, Binary32, W, Binary32) -> (W, Binary32),
    O: Fn(HammerConfig, Binary32) -> Binary32,
    U: Fn(Binary32, Binary32) -> Binary32,
    J: Fn(Binary32) -> Binary32,
    K: Fn(PluckedString, Binary32, Binary32, Binary32, usize) -> S,
    Z: Fn(PluckedString) -> Binary32,
    C: Copy,
    Bend: Fn(Binary32) -> Binary32,
    Retune: Fn(PluckedString) -> Binary32,
    Detune: Fn(Binary32, Binary32) -> Binary32,
    Resonate: Fn(SoundboardMode) -> C,
    Power: Fn(Binary32, Binary32) -> Binary32,
>(
    engine: &Engine,
    arithmetic: &Arithmetic<S, I, A, M, F, E, H, L, B, X, R, P, N, Q, D>,
    hammers: &Hammers<S, W, Y, V, O, U, J, K, Z>,
    settings: &Settings<C, Bend, Retune, Detune, Resonate, Power>,
    before: Seq<Seq<PathState<S>>>,
    after: Seq<Seq<PathState<S>>>,
    board: Seq<Resonator<C>>,
    board_after: Seq<Resonator<C>>,
    key: int,
    place: int,
    age: int,
)
    requires
        before.len() == 88,
        0 <= key < 88,
        0 <= place < before[key].len(),
        0 <= age < before[key][place].line.len(),
        exists|lines: &mut Vec<Vec<Waveguide<S>>>, bank: &mut ResonatorBank<C>|
            {
                &&& #[trigger] call_ensures(
                    Engine::perform::<
                        S, I, A, M, F, E, H, L, B, X, R, P, N, Q, D,
                        W, Y, V, O, U, J, K, Z,
                        C, Bend, Retune, Detune, Resonate, Power,
                    >,
                    (engine, Action::Silence, lines, bank, arithmetic, hammers, settings),
                    (),
                )
                &&& rendering::all_states((*lines)@) == before
                &&& rendering::all_states((*final(lines))@) == after
                &&& (*bank)@ == board
                &&& (*final(bank))@ == board_after
            },
    ensures
        board_after == board,
        after.len() == 88,
        after[key].len() == before[key].len(),
        after[key][place].line.len() == before[key][place].line.len(),
        after[key][place].line[age].bits == 0,
        after[key][place].pending is None,
        after[key][place].loop_filter.state.bits == 0,
        after[key][place].dc_blocker.last_output.bits == 0,
        after[key][place].last_tap.bits == 0,
        forall|i: int|
            0 <= i < before[key][place].sections.len()
                ==> (#[trigger] after[key][place].sections[i]).state.bits == 0,
{
}

/// Retuning all retunes the path of every string of every key, whatever its place, and
/// what each path was sounding goes on.
pub proof fn retuning_reaches_every_path<
    S: Copy,
    I: Fn(Binary32, Binary32, Binary32, Binary32, Binary32) -> Binary32,
    A: Fn(Binary32, Binary32, Binary32) -> Binary32,
    M: Fn(Binary32, Binary32, Binary32) -> Binary32,
    F: Fn(Binary32, Binary32, Binary32) -> Binary32,
    E: Fn(Binary32, Binary32, Binary32) -> Binary32,
    H: Fn(S, Binary32, Binary32) -> (S, Binary32),
    L: Fn(S) -> bool,
    B: Fn(Binary32, Binary32, Binary32, Binary32) -> Binary32,
    X: Fn(Binary32, Binary32) -> Binary32,
    R: Fn(Binary32, Binary32, Binary32, Binary32) -> Binary32,
    P: Fn(Binary32, Binary32) -> Binary32,
    N: Fn(Binary32, Binary32) -> Binary32,
    Q: Fn(Binary32, usize) -> Binary32,
    D: Fn(Binary32, Binary32, Binary32) -> Binary32,
    W: Copy,
    Y: Fn(Binary32) -> W,
    V: Fn(HammerConfig, Binary32, W, Binary32) -> (W, Binary32),
    O: Fn(HammerConfig, Binary32) -> Binary32,
    U: Fn(Binary32, Binary32) -> Binary32,
    J: Fn(Binary32) -> Binary32,
    K: Fn(PluckedString, Binary32, Binary32, Binary32, usize) -> S,
    Z: Fn(PluckedString) -> Binary32,
    C: Copy,
    Bend: Fn(Binary32) -> Binary32,
    Retune: Fn(PluckedString) -> Binary32,
    Detune: Fn(Binary32, Binary32) -> Binary32,
    Resonate: Fn(SoundboardMode) -> C,
    Power: Fn(Binary32, Binary32) -> Binary32,
>(
    engine: &Engine,
    arithmetic: &Arithmetic<S, I, A, M, F, E, H, L, B, X, R, P, N, Q, D>,
    hammers: &Hammers<S, W, Y, V, O, U, J, K, Z>,
    settings: &Settings<C, Bend, Retune, Detune, Resonate, Power>,
    before: Seq<Seq<PathState<S>>>,
    after: Seq<Seq<PathState<S>>>,
    board: Seq<Resonator<C>>,
    board_after: Seq<Resonator<C>>,
    key: int,
    place: int,
)
    requires
        engine@.voices.len() == 88,
        before.len() == 88,
        0 <= key < 88,
        0 <= place < before[key].len(),
        engine@.voices[key].wf(),
        exists|lines: &mut Vec<Vec<Waveguide<S>>>, bank: &mut ResonatorBank<C>|
            {
                &&& #[trigger] call_ensures(
                    Engine::perform::<
                        S, I, A, M, F, E, H, L, B, X, R, P, N, Q, D,
                        W, Y, V, O, U, J, K, Z,
                        C, Bend, Retune, Detune, Resonate, Power,
                    >,
                    (engine, Action::RetuneAll, lines, bank, arithmetic, hammers, settings),
                    (),
                )
                &&& rendering::all_states((*lines)@) == before
                &&& rendering::all_states((*final(lines))@) == after
                &&& (*bank)@ == board
                &&& (*final(bank))@ == board_after
            },
    ensures
        board_after == board,
        after.len() == 88,
        after[key].len() == before[key].len(),
        after[key][place].line == before[key][place].line,
        after[key][place].pending == before[key][place].pending,
        engine@.voices[key].strings is Some
            && string_laws::string_of(engine@.voices[key].strings->0, place) is Some
            ==> lands(
            string_laws::string_of(engine@.voices[key].strings->0, place)->0.damping,
            0,
            0x3f7f_f972,
            after[key][place].loop_filter.pole,
        ) && waveguide::are_bent_for(
            string_laws::string_of(engine@.voices[key].strings->0, place)->0.inharmonicity,
            settings.bend,
            after[key][place].sections,
        ),
{
    assert(after[key] == after[key]);
    assert(after[key][place] == after[key][place]);
    if engine@.voices[key].strings is Some {
        let group = engine@.voices[key].strings->0;
        assert(group.at(place) == string_laws::string_of(group, place));
    }
}

/// Retuning one string retunes its path, whatever its place, and no other path of any
/// key.
pub proof fn retuning_a_string_reaches_its_path_alone<
    S: Copy,
    I: Fn(Binary32, Binary32, Binary32, Binary32, Binary32) -> Binary32,
    A: Fn(Binary32, Binary32, Binary32) -> Binary32,
    M: Fn(Binary32, Binary32, Binary32) -> Binary32,
    F: Fn(Binary32, Binary32, Binary32) -> Binary32,
    E: Fn(Binary32, Binary32, Binary32) -> Binary32,
    H: Fn(S, Binary32, Binary32) -> (S, Binary32),
    L: Fn(S) -> bool,
    B: Fn(Binary32, Binary32, Binary32, Binary32) -> Binary32,
    X: Fn(Binary32, Binary32) -> Binary32,
    R: Fn(Binary32, Binary32, Binary32, Binary32) -> Binary32,
    P: Fn(Binary32, Binary32) -> Binary32,
    N: Fn(Binary32, Binary32) -> Binary32,
    Q: Fn(Binary32, usize) -> Binary32,
    D: Fn(Binary32, Binary32, Binary32) -> Binary32,
    W: Copy,
    Y: Fn(Binary32) -> W,
    V: Fn(HammerConfig, Binary32, W, Binary32) -> (W, Binary32),
    O: Fn(HammerConfig, Binary32) -> Binary32,
    U: Fn(Binary32, Binary32) -> Binary32,
    J: Fn(Binary32) -> Binary32,
    K: Fn(PluckedString, Binary32, Binary32, Binary32, usize) -> S,
    Z: Fn(PluckedString) -> Binary32,
    C: Copy,
    Bend: Fn(Binary32) -> Binary32,
    Retune: Fn(PluckedString) -> Binary32,
    Detune: Fn(Binary32, Binary32) -> Binary32,
    Resonate: Fn(SoundboardMode) -> C,
    Power: Fn(Binary32, Binary32) -> Binary32,
>(
    engine: &Engine,
    arithmetic: &Arithmetic<S, I, A, M, F, E, H, L, B, X, R, P, N, Q, D>,
    hammers: &Hammers<S, W, Y, V, O, U, J, K, Z>,
    settings: &Settings<C, Bend, Retune, Detune, Resonate, Power>,
    before: Seq<Seq<PathState<S>>>,
    after: Seq<Seq<PathState<S>>>,
    board: Seq<Resonator<C>>,
    board_after: Seq<Resonator<C>>,
    key: usize,
    string: usize,
    other: int,
    place: int,
)
    requires
        engine@.voices.len() == 88,
        before.len() == 88,
        key < 88,
        engine@.voices[key as int].strings is Some,
        engine@.voices[key as int].strings->0.wf(),
        0 <= place < before[key as int].len(),
        exists|lines: &mut Vec<Vec<Waveguide<S>>>, bank: &mut ResonatorBank<C>|
            {
                &&& #[trigger] call_ensures(
                    Engine::perform::<
                        S, I, A, M, F, E, H, L, B, X, R, P, N, Q, D,
                        W, Y, V, O, U, J, K, Z,
                        C, Bend, Retune, Detune, Resonate, Power,
                    >,
                    (
                        engine,
                        Action::Retune { key, string },
                        lines,
                        bank,
                        arithmetic,
                        hammers,
                        settings,
                    ),
                    (),
                )
                &&& rendering::all_states((*lines)@) == before
                &&& rendering::all_states((*final(lines))@) == after
                &&& (*bank)@ == board
                &&& (*final(bank))@ == board_after
            },
    ensures
        board_after == board,
        after.len() == 88,
        0 <= other < 88 && other != key ==> after[other] == before[other],
        after[key as int].len() == before[key as int].len(),
        place != string ==> after[key as int][place] == before[key as int][place],
        place == string
            && string_laws::string_of(engine@.voices[key as int].strings->0, place) is Some
            ==> lands(
            string_laws::string_of(engine@.voices[key as int].strings->0, place)->0.damping,
            0,
            0x3f7f_f972,
            after[key as int][place].loop_filter.pole,
        ) && waveguide::are_bent_for(
            string_laws::string_of(engine@.voices[key as int].strings->0, place)->0.inharmonicity,
            settings.bend,
            after[key as int][place].sections,
        ),
{
    let group = engine@.voices[key as int].strings->0;
    assert(group.at(place) == string_laws::string_of(group, place));
    assert(after[key as int][place] == after[key as int][place]);
}

/// Rebuilding a mode rebuilds its resonator for the mode as it is set, and leaves every
/// other resonator and every path as it was.
pub proof fn rebuilding_reaches_one_resonator<
    S: Copy,
    I: Fn(Binary32, Binary32, Binary32, Binary32, Binary32) -> Binary32,
    A: Fn(Binary32, Binary32, Binary32) -> Binary32,
    M: Fn(Binary32, Binary32, Binary32) -> Binary32,
    F: Fn(Binary32, Binary32, Binary32) -> Binary32,
    E: Fn(Binary32, Binary32, Binary32) -> Binary32,
    H: Fn(S, Binary32, Binary32) -> (S, Binary32),
    L: Fn(S) -> bool,
    B: Fn(Binary32, Binary32, Binary32, Binary32) -> Binary32,
    X: Fn(Binary32, Binary32) -> Binary32,
    R: Fn(Binary32, Binary32, Binary32, Binary32) -> Binary32,
    P: Fn(Binary32, Binary32) -> Binary32,
    N: Fn(Binary32, Binary32) -> Binary32,
    Q: Fn(Binary32, usize) -> Binary32,
    D: Fn(Binary32, Binary32, Binary32) -> Binary32,
    W: Copy,
    Y: Fn(Binary32) -> W,
    V: Fn(HammerConfig, Binary32, W, Binary32) -> (W, Binary32),
    O: Fn(HammerConfig, Binary32) -> Binary32,
    U: Fn(Binary32, Binary32) -> Binary32,
    J: Fn(Binary32) -> Binary32,
    K: Fn(PluckedString, Binary32, Binary32, Binary32, usize) -> S,
    Z: Fn(PluckedString) -> Binary32,
    C: Copy,
    Bend: Fn(Binary32) -> Binary32,
    Retune: Fn(PluckedString) -> Binary32,
    Detune: Fn(Binary32, Binary32) -> Binary32,
    Resonate: Fn(SoundboardMode) -> C,
    Power: Fn(Binary32, Binary32) -> Binary32,
>(
    engine: &Engine,
    arithmetic: &Arithmetic<S, I, A, M, F, E, H, L, B, X, R, P, N, Q, D>,
    hammers: &Hammers<S, W, Y, V, O, U, J, K, Z>,
    settings: &Settings<C, Bend, Retune, Detune, Resonate, Power>,
    before: Seq<Seq<PathState<S>>>,
    after: Seq<Seq<PathState<S>>>,
    board: Seq<Resonator<C>>,
    board_after: Seq<Resonator<C>>,
    index: usize,
    other: int,
)
    requires
        board.len() == 8,
        index < 8,
        exists|lines: &mut Vec<Vec<Waveguide<S>>>, bank: &mut ResonatorBank<C>|
            {
                &&& #[trigger] call_ensures(
                    Engine::perform::<
                        S, I, A, M, F, E, H, L, B, X, R, P, N, Q, D,
                        W, Y, V, O, U, J, K, Z,
                        C, Bend, Retune, Detune, Resonate, Power,
                    >,
                    (
                        engine,
                        Action::RebuildMode { index },
                        lines,
                        bank,
                        arithmetic,
                        hammers,
                        settings,
                    ),
                    (),
                )
                &&& rendering::all_states((*lines)@) == before
                &&& rendering::all_states((*final(lines))@) == after
                &&& (*bank)@ == board
                &&& (*final(bank))@ == board_after
            },
    ensures
        after == before,
        board_after.len() == 8,
        0 <= other < 8 && other != index ==> board_after[other] == board[other],
        settings.resonate.ensures(
            (engine@.modes[index as int],),
            board_after[index as int].coefficients,
        ),
        board_after[index as int].state1.bits == 0,
        board_after[index as int].state2.bits == 0,
{
}

} // verus!
