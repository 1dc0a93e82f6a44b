//! What every string of a note does in one sample, whichever its place.
//!
//! A sample of a note goes round each of its strings: the string is read at its own loop
//! delay, what was read passes its filter and its sections, the strings hear each other,
//! and each takes back what it made of that. What is said here is said of what
//! [`Arithmetic`] leaves of a note, over its strings and their paths.
use crate::binary32::Binary32;
use crate::bridge::BridgeBus;
use crate::coupling;
use crate::coupling::Feedback;
use crate::delay::DelayLine;
use crate::filter;
use crate::hammer;
use crate::path_laws;
use crate::path_laws::{is_audible_part, passes_every_section};
use crate::sounding;
use crate::sounding::Arithmetic;
use crate::string;
use crate::string::PluckedString;
use crate::unison::UnisonGroup;
use crate::waveguide;
use crate::waveguide::{PathState, Waveguide};
use vstd::prelude::*;

verus! {

/// `tap` is what is read from a path at `delay`, kept within the line: the samples around
/// it, and what was read last.
pub open spec fn reads<
    S,
    I: Fn(Binary32, Binary32, Binary32, Binary32, Binary32) -> Binary32,
>(path: PathState<S>, delay: Binary32, interpolate: I, tap: Binary32) -> bool {
    exists|
        kept: Binary32,
        newer: Binary32,
        here: Binary32,
        older: Binary32,
        read: Binary32,
    |
        {
            &&& delay.within(
                Binary32 { bits: 0 },
                Binary32::natural(path.line.len() - 1),
            ) ==> kept == delay
            &&& here == path.line[kept.whole()]
            &&& newer == path.line[if kept.whole() == 0 {
                0
            } else {
                kept.whole() - 1
            }]
            &&& older == path.line[(kept.whole() + 1) % path.line.len() as int]
            &&& #[trigger] interpolate.ensures((kept, newer, here, older, path.last_tap), read)
            &&& is_audible_part(read, tap)
        }
}

/// `signal` is what is left of `tap` past the loop's filter and every active section,
/// which then remember it.
pub open spec fn passes_the_loop<
    S,
    A: Fn(Binary32, Binary32, Binary32) -> Binary32,
    M: Fn(Binary32, Binary32, Binary32) -> Binary32,
    F: Fn(Binary32, Binary32, Binary32) -> Binary32,
    E: Fn(Binary32, Binary32, Binary32) -> Binary32,
>(
    before: PathState<S>,
    tap: Binary32,
    average: A,
    smooth: M,
    feed: F,
    emit: E,
    after: PathState<S>,
    signal: Binary32,
) -> bool {
    exists|averaged: Binary32, smoothed: Binary32|
        {
            &&& #[trigger] average.ensures(
                (tap, before.loop_filter.last_input, before.loop_filter.zero_mix),
                averaged,
            )
            &&& #[trigger] smooth.ensures(
                (averaged, before.loop_filter.state, before.loop_filter.pole),
                smoothed,
            )
            &&& is_audible_part(smoothed, after.loop_filter.state)
            &&& after.loop_filter.last_input == tap
            &&& after.loop_filter.pole == before.loop_filter.pole
            &&& after.loop_filter.zero_mix == before.loop_filter.zero_mix
            &&& passes_every_section(
                before.sections,
                before.active,
                after.loop_filter.state,
                feed,
                emit,
                after.sections,
                signal,
            )
        }
}

/// `gain` is what a string leaves of a signal that goes round it: its sustain, and under a
/// damper two fifths of that.
pub open spec fn is_gain<X: Fn(Binary32, Binary32) -> Binary32>(
    string: PluckedString,
    times: X,
    gain: Binary32,
) -> bool {
    if string.damper_engaged {
        times.ensures((string.sustain, Binary32 { bits: 0x3ecc_cccd }), gain)
    } else {
        gain == string.sustain
    }
}

/// A line takes up what is reflected of `mixed` and `coupling` and what the hammer pushes,
/// and every sample in it is one older.
pub open spec fn takes_back<
    X: Fn(Binary32, Binary32) -> Binary32,
    R: Fn(Binary32, Binary32, Binary32, Binary32) -> Binary32,
>(
    string: PluckedString,
    before: Seq<Binary32>,
    mixed: Binary32,
    coupling: Binary32,
    pushed: Binary32,
    times: X,
    reflect: R,
    after: Seq<Binary32>,
) -> bool {
    &&& after.len() == before.len()
    &&& exists|gain: Binary32, reflected: Binary32|
        {
            &&& #[trigger] is_gain(string, times, gain)
            &&& #[trigger] reflect.ensures((mixed, coupling, gain, pushed), reflected)
            &&& is_audible_part(reflected, after[0])
        }
    &&& forall|age: int| 1 <= age < before.len() ==> #[trigger] after[age] == before[age - 1]
}

/// The envelope of a string follows `output`, and nothing else of it changes.
pub open spec fn is_followed<X: Fn(Binary32, Binary32) -> Binary32>(
    before: PluckedString,
    output: Binary32,
    times: X,
    after: PluckedString,
) -> bool {
    exists|fallen: Binary32|
        {
            &&& before.damper_engaged ==> times.ensures(
                (before.envelope, Binary32 { bits: 0x3f7e_b852 }),
                fallen,
            )
            &&& !before.damper_engaged ==> times.ensures(
                (before.envelope, Binary32 { bits: 0x3f7f_df3b }),
                fallen,
            )
            &&& #[trigger] follows_the_louder(output, fallen, after.envelope)
            &&& after == PluckedString { envelope: after.envelope, ..before }
        }
}

/// `envelope` is the louder of `output` and `fallen`.
pub open spec fn follows_the_louder(
    output: Binary32,
    fallen: Binary32,
    envelope: Binary32,
) -> bool {
    &&& fallen.below(Binary32 { bits: output.magnitude() as u32 }) ==> is_audible_part(
        Binary32 { bits: output.magnitude() as u32 },
        envelope,
    )
    &&& !fallen.below(Binary32 { bits: output.magnitude() as u32 }) ==> is_audible_part(
        fallen,
        envelope,
    )
}

/// `output` is what is left of `tap` without its offset.
pub open spec fn is_let_through<B: Fn(Binary32, Binary32, Binary32, Binary32) -> Binary32>(
    before: filter::DcBlocker,
    tap: Binary32,
    block: B,
    after: filter::DcBlocker,
    output: Binary32,
) -> bool {
    &&& after == filter::DcBlocker { last_input: tap, last_output: output, ..before }
    &&& exists|stepped: Binary32| #[trigger]
        block.ensures((tap, before.last_input, before.last_output, before.pole), stepped)
            && is_audible_part(stepped, output)
}

proof fn lemma_reads<S, I: Fn(Binary32, Binary32, Binary32, Binary32, Binary32) -> Binary32>(
    before: PathState<S>,
    delay: Binary32,
    interpolate: I,
    after: PathState<S>,
    tap: Binary32,
)
    requires
        waveguide::is_read(before, delay, interpolate, after, tap),
    ensures
        reads(before, delay, interpolate, tap),
        after == (PathState { last_tap: tap, ..before }),
{
    let kept = crate::math::bounded(
        delay,
        Binary32 { bits: 0 },
        Binary32::natural(before.line.len() - 1),
    );
    let whole = kept.whole();
    let newer = if whole == 0 {
        0
    } else {
        whole - 1
    };
    let read = choose|read: Binary32|
        {
            &&& tap == #[trigger] crate::math::flushed(read)
            &&& interpolate.ensures(
                (
                    kept,
                    before.line[newer],
                    before.line[whole],
                    before.line[(whole + 1) % before.line.len() as int],
                    before.last_tap,
                ),
                read,
            )
        };
    assert(interpolate.ensures(
        (
            kept,
            before.line[if kept.whole() == 0 {
                0
            } else {
                kept.whole() - 1
            }],
            before.line[kept.whole()],
            before.line[(kept.whole() + 1) % before.line.len() as int],
            before.last_tap,
        ),
        read,
    ));
}

proof fn lemma_passes_the_loop<
    S,
    A: Fn(Binary32, Binary32, Binary32) -> Binary32,
    M: Fn(Binary32, Binary32, Binary32) -> Binary32,
    F: Fn(Binary32, Binary32, Binary32) -> Binary32,
    E: Fn(Binary32, Binary32, Binary32) -> Binary32,
>(
    before: PathState<S>,
    tap: Binary32,
    average: A,
    smooth: M,
    feed: F,
    emit: E,
    after: PathState<S>,
    signal: Binary32,
)
    requires
        0 <= before.active <= before.sections.len(),
        waveguide::is_dispersed(before, tap, average, smooth, feed, emit, after, signal),
    ensures
        passes_the_loop(before, tap, average, smooth, feed, emit, after, signal),
        after == (PathState {
            loop_filter: after.loop_filter,
            sections: after.sections,
            ..before
        }),
{
    let filtered = choose|filtered: Binary32|
        {
            &&& #[trigger] filter::is_filtered(
                before.loop_filter,
                tap,
                average,
                smooth,
                after.loop_filter,
                filtered,
            )
            &&& crate::dispersion::is_bent(
                before.sections,
                before.active,
                filtered,
                feed,
                emit,
                after.sections,
                signal,
            )
        };
    path_laws::lemma_passes(
        before.sections,
        before.active,
        filtered,
        feed,
        emit,
        after.sections,
        signal,
    );
    let (averaged, smoothed) = choose|averaged: Binary32, smoothed: Binary32|
        {
            &&& #[trigger] average.ensures(
                (tap, before.loop_filter.last_input, before.loop_filter.zero_mix),
                averaged,
            )
            &&& #[trigger] smooth.ensures(
                (averaged, before.loop_filter.state, before.loop_filter.pole),
                smoothed,
            )
            &&& filtered == crate::math::flushed(smoothed)
        };
    assert(average.ensures(
        (tap, before.loop_filter.last_input, before.loop_filter.zero_mix),
        averaged,
    ));
    assert(smooth.ensures(
        (averaged, before.loop_filter.state, before.loop_filter.pole),
        smoothed,
    ));
}

proof fn lemma_takes_back<
    X: Fn(Binary32, Binary32) -> Binary32,
    R: Fn(Binary32, Binary32, Binary32, Binary32) -> Binary32,
>(
    string: PluckedString,
    before: Seq<Binary32>,
    mixed: Binary32,
    coupling: Binary32,
    pushed: Binary32,
    times: X,
    reflect: R,
    after: Seq<Binary32>,
)
    requires
        before.len() >= 1,
        string::is_reflected(string, before, mixed, coupling, pushed, times, reflect, after),
    ensures
        takes_back(string, before, mixed, coupling, pushed, times, reflect, after),
{
    let (gain, reflected) = choose|gain: Binary32, reflected: Binary32|
        {
            &&& #[trigger] string.survives(times, gain)
            &&& #[trigger] reflect.ensures((mixed, coupling, gain, pushed), reflected)
            &&& after == seq![crate::math::flushed(reflected)] + before.drop_last()
        };
    assert(is_gain(string, times, gain));
    assert(reflect.ensures((mixed, coupling, gain, pushed), reflected));
}

proof fn lemma_is_followed<X: Fn(Binary32, Binary32) -> Binary32>(
    before: PluckedString,
    output: Binary32,
    times: X,
    after: PluckedString,
)
    requires
        string::is_followed(before, output, times, after),
    ensures
        is_followed(before, output, times, after),
{
    let fallen = choose|decayed: Binary32| #[trigger]
        times.ensures((before.envelope, before.decay_rate()), decayed) && after == before.tracking(
            output,
            decayed,
        );
    assert(follows_the_louder(output, fallen, after.envelope));
}

/// A path is read at the delay that was asked for, and remembers what was read; nothing
/// else of it changes.
pub proof fn paths_are_read_at_their_delay<
    S: Copy,
    I: Fn(Binary32, Binary32, Binary32, Binary32, Binary32) -> Binary32,
>(
    before: PathState<S>,
    after: PathState<S>,
    delay: Binary32,
    interpolate: &I,
    tap: Binary32,
)
    requires
        exists|path: &mut Waveguide<S>| #[trigger]
            call_ensures(Waveguide::<S>::read_bridge_tap::<I>, (path, delay, interpolate), tap)
                && (*path)@ == before && (*final(path))@ == after,
    ensures
        reads(before, delay, *interpolate, tap),
        after == (PathState { last_tap: tap, ..before }),
{
    lemma_reads(before, delay, *interpolate, after, tap);
}

/// What was read passes the loop filter and then every active section; nothing else of
/// the path changes.
pub proof fn taps_pass_the_whole_loop<
    S: Copy,
    A: Fn(Binary32, Binary32, Binary32) -> Binary32,
    M: Fn(Binary32, Binary32, Binary32) -> Binary32,
    F: Fn(Binary32, Binary32, Binary32) -> Binary32,
    E: Fn(Binary32, Binary32, Binary32) -> Binary32,
>(
    before: PathState<S>,
    after: PathState<S>,
    tap: Binary32,
    average: &A,
    smooth: &M,
    feed: &F,
    emit: &E,
    signal: Binary32,
)
    requires
        0 <= before.active <= before.sections.len(),
        exists|path: &mut Waveguide<S>| #[trigger]
            call_ensures(
                Waveguide::<S>::disperse::<A,
                M,
                F,
                E>,
                (path, tap, average, smooth, feed, emit),
                signal,
            )
                && (*path)@ == before && (*final(path))@ == after,
    ensures
        passes_the_loop(before, tap, *average, *smooth, *feed, *emit, after, signal),
        after == (PathState { loop_filter: after.loop_filter, sections: after.sections, ..before }),
{
    lemma_passes_the_loop(before, tap, *average, *smooth, *feed, *emit, after, signal);
}

/// A string takes back what it mixed, what the bridge drives and what the hammer
/// pushes, by its own gain, and its envelope follows what it gives.
pub proof fn strings_take_back_by_their_own_gain<
    P: Fn(Binary32, Binary32) -> Binary32,
    R: Fn(Binary32, Binary32, Binary32, Binary32) -> Binary32,
>(
    string: PluckedString,
    string_after: PluckedString,
    before: Seq<Binary32>,
    after: Seq<Binary32>,
    mixed: Binary32,
    coupling: Binary32,
    pushed: Binary32,
    output: Binary32,
    times: &P,
    reflect: &R,
)
    requires
        before.len() >= 1,
        exists|subject: &mut PluckedString, line: &mut DelayLine<Binary32>|
            {
                &&& #[trigger] call_ensures(
                    PluckedString::write_mixed_feedback::<P, R>,
                    (subject, line, mixed, coupling, pushed, output, times, reflect),
                    (),
                )
                &&& *subject == string
                &&& *final(subject) == string_after
                &&& (*line)@ == before
                &&& (*final(line))@ == after
            },
    ensures
        takes_back(string, before, mixed, coupling, pushed, *times, *reflect, after),
        is_followed(string, output, *times, string_after),
{
    lemma_takes_back(string, before, mixed, coupling, pushed, *times, *reflect, after);
    lemma_is_followed(string, output, *times, string_after);
}

/// One string of a note goes through one sample: it is read at its own loop delay, what
/// was read passes its loop, its line takes back `feedback` and what the hammer pushes, and
/// it gives `output`.
pub open spec fn goes_round<
    S: Copy,
    I: Fn(Binary32, Binary32, Binary32, Binary32, Binary32) -> Binary32,
    A: Fn(Binary32, Binary32, Binary32) -> Binary32,
    M: Fn(Binary32, Binary32, Binary32) -> Binary32,
    F: Fn(Binary32, Binary32, Binary32) -> Binary32,
    E: Fn(Binary32, Binary32, Binary32) -> Binary32,
    H: Fn(S, Binary32, Binary32) -> (S, Binary32),
    L: Fn(S) -> bool,
    B: Fn(Binary32, Binary32, Binary32, Binary32) -> Binary32,
    X: Fn(Binary32, Binary32) -> Binary32,
    R: Fn(Binary32, Binary32, Binary32, Binary32) -> Binary32,
    P: Fn(Binary32, Binary32) -> Binary32,
    N: Fn(Binary32, Binary32) -> Binary32,
    Q: Fn(Binary32, usize) -> Binary32,
    D: Fn(Binary32, Binary32, Binary32) -> Binary32,
>(
    arithmetic: Arithmetic<S, I, A, M, F, E, H, L, B, X, R, P, N, Q, D>,
    string: PluckedString,
    before: PathState<S>,
    tap: Binary32,
    signal: Binary32,
    feedback: Feedback<Binary32>,
    string_after: PluckedString,
    after: PathState<S>,
    output: Binary32,
) -> bool {
    &&& reads(before, string.loop_delay, arithmetic.interpolate, tap)
    &&& after.last_tap == tap
    &&& after.active == before.active
    &&& passes_the_loop(
        before,
        tap,
        arithmetic.average,
        arithmetic.smooth,
        arithmetic.feed,
        arithmetic.emit,
        after,
        signal,
    )
    &&& exists|pushed: Binary32|
        {
            &&& #[trigger] hammer::is_injected(
                before.pending,
                tap,
                Binary32 { bits: 0 },
                arithmetic.step,
                arithmetic.has_left,
                after.pending,
                pushed,
            )
            &&& takes_back(
                string,
                before.line,
                feedback.mixed,
                feedback.coupling,
                pushed,
                arithmetic.times,
                arithmetic.reflect,
                after.line,
            )
        }
    &&& is_let_through(before.dc_blocker, tap, arithmetic.block, after.dc_blocker, output)
    &&& is_followed(string, output, arithmetic.times, string_after)
}

proof fn lemma_goes_round<
    S: Copy,
    I: Fn(Binary32, Binary32, Binary32, Binary32, Binary32) -> Binary32,
    A: Fn(Binary32, Binary32, Binary32) -> Binary32,
    M: Fn(Binary32, Binary32, Binary32) -> Binary32,
    F: Fn(Binary32, Binary32, Binary32) -> Binary32,
    E: Fn(Binary32, Binary32, Binary32) -> Binary32,
    H: Fn(S, Binary32, Binary32) -> (S, Binary32),
    L: Fn(S) -> bool,
    B: Fn(Binary32, Binary32, Binary32, Binary32) -> Binary32,
    X: Fn(Binary32, Binary32) -> Binary32,
    R: Fn(Binary32, Binary32, Binary32, Binary32) -> Binary32,
    P: Fn(Binary32, Binary32) -> Binary32,
    N: Fn(Binary32, Binary32) -> Binary32,
    Q: Fn(Binary32, usize) -> Binary32,
    D: Fn(Binary32, Binary32, Binary32) -> Binary32,
>(
    arithmetic: Arithmetic<S, I, A, M, F, E, H, L, B, X, R, P, N, Q, D>,
    string: PluckedString,
    before: PathState<S>,
    heard: PathState<S>,
    tap: Binary32,
    signal: Binary32,
    feedback: Feedback<Binary32>,
    string_after: PluckedString,
    after: PathState<S>,
    output: Binary32,
)
    requires
        before.line.len() >= 1,
        0 <= before.active <= before.sections.len(),
        arithmetic.hears(string, before, heard, tap, signal),
        arithmetic.answers(string, heard, tap, feedback, string_after, after, output),
    ensures
        goes_round(
            arithmetic,
            string,
            before,
            tap,
            signal,
            feedback,
            string_after,
            after,
            output,
        ),
{
    let read = choose|read: PathState<S>|
        {
            &&& #[trigger] waveguide::is_read(
                before,
                string.loop_delay,
                arithmetic.interpolate,
                read,
                tap,
            )
            &&& waveguide::is_dispersed(
                read,
                tap,
                arithmetic.average,
                arithmetic.smooth,
                arithmetic.feed,
                arithmetic.emit,
                heard,
                signal,
            )
        };
    lemma_reads(before, string.loop_delay, arithmetic.interpolate, read, tap);
    lemma_passes_the_loop(
        read,
        tap,
        arithmetic.average,
        arithmetic.smooth,
        arithmetic.feed,
        arithmetic.emit,
        heard,
        signal,
    );
    assert(passes_the_loop(
        before,
        tap,
        arithmetic.average,
        arithmetic.smooth,
        arithmetic.feed,
        arithmetic.emit,
        after,
        signal,
    ));
    let pushed = choose|pushed: Binary32|
        {
            &&& #[trigger] hammer::is_injected(
                heard.pending,
                tap,
                Binary32 { bits: 0 },
                arithmetic.step,
                arithmetic.has_left,
                after.pending,
                pushed,
            )
            &&& string::is_reflected(
                string,
                heard.line,
                feedback.mixed,
                feedback.coupling,
                pushed,
                arithmetic.times,
                arithmetic.reflect,
                after.line,
            )
        };
    lemma_takes_back(
        string,
        before.line,
        feedback.mixed,
        feedback.coupling,
        pushed,
        arithmetic.times,
        arithmetic.reflect,
        after.line,
    );
    assert(hammer::is_injected(
        before.pending,
        tap,
        Binary32 { bits: 0 },
        arithmetic.step,
        arithmetic.has_left,
        after.pending,
        pushed,
    ));
    lemma_is_followed(string, output, arithmetic.times, string_after);
}

/// The string at `place` of a note.
pub open spec fn string_of(group: UnisonGroup, place: int) -> PluckedString {
    if place == 0 {
        group.first
    } else if place == 1 {
        group.second->0
    } else {
        group.third->0
    }
}

/// How many strings a note has.
pub open spec fn strings_in(group: UnisonGroup) -> int {
    1 + (if group.second is Some {
        1int
    } else {
        0
    }) + (if group.third is Some {
        1int
    } else {
        0
    })
}

/// `total` is the sum of `outputs`, from the first to the last, beginning with zero.
pub open spec fn is_sum<P: Fn(Binary32, Binary32) -> Binary32>(
    outputs: Seq<Binary32>,
    plus: P,
    total: Binary32,
) -> bool {
    exists|sums: Seq<Binary32>| #[trigger] runs_up(outputs, plus, sums) && sums.last() == total
}

/// `sums` runs from zero over `outputs`, taking up each of them.
pub open spec fn runs_up<P: Fn(Binary32, Binary32) -> Binary32>(
    outputs: Seq<Binary32>,
    plus: P,
    sums: Seq<Binary32>,
) -> bool {
    &&& sums.len() == outputs.len() + 1
    &&& sums[0].bits == 0
    &&& forall|i: int|
        0 <= i < outputs.len() ==> plus.ensures((sums[i], #[trigger] outputs[i]), sums[i + 1])
}

proof fn lemma_sum<
    S: Copy,
    I: Fn(Binary32, Binary32, Binary32, Binary32, Binary32) -> Binary32,
    A: Fn(Binary32, Binary32, Binary32) -> Binary32,
    M: Fn(Binary32, Binary32, Binary32) -> Binary32,
    F: Fn(Binary32, Binary32, Binary32) -> Binary32,
    E: Fn(Binary32, Binary32, Binary32) -> Binary32,
    H: Fn(S, Binary32, Binary32) -> (S, Binary32),
    L: Fn(S) -> bool,
    B: Fn(Binary32, Binary32, Binary32, Binary32) -> Binary32,
    X: Fn(Binary32, Binary32) -> Binary32,
    R: Fn(Binary32, Binary32, Binary32, Binary32) -> Binary32,
    P: Fn(Binary32, Binary32) -> Binary32,
    N: Fn(Binary32, Binary32) -> Binary32,
    Q: Fn(Binary32, usize) -> Binary32,
    D: Fn(Binary32, Binary32, Binary32) -> Binary32,
>(
    arithmetic: Arithmetic<S, I, A, M, F, E, H, L, B, X, R, P, N, Q, D>,
    outputs: Seq<Binary32>,
    total: Binary32,
) -> (sums: Seq<Binary32>)
    requires
        arithmetic.adds_up(outputs, total),
    ensures
        runs_up(outputs, arithmetic.plus, sums),
        sums.last() == total,
    decreases outputs.len(),
{
    if outputs.len() == 0 {
        seq![total]
    } else {
        let before = choose|before: Binary32|
            arithmetic.adds_up(outputs.drop_last(), before) && #[trigger] arithmetic.plus.ensures(
                (before, outputs.last()),
                total,
            );
        let shorter = lemma_sum(arithmetic, outputs.drop_last(), before);
        let sums = shorter.push(total);
        assert forall|i: int| 0 <= i < outputs.len() implies arithmetic.plus.ensures(
            (sums[i], #[trigger] outputs[i]),
            sums[i + 1],
        ) by {
            if i < outputs.len() - 1 {
                assert(outputs.drop_last()[i] == outputs[i]);
                assert(arithmetic.plus.ensures(
                    (shorter[i], outputs.drop_last()[i]),
                    shorter[i + 1],
                ));
            }
        }
        sums
    }
}

/// Every string of a note goes round in one sample.
pub open spec fn all_go_round<
    S: Copy,
    I: Fn(Binary32, Binary32, Binary32, Binary32, Binary32) -> Binary32,
    A: Fn(Binary32, Binary32, Binary32) -> Binary32,
    M: Fn(Binary32, Binary32, Binary32) -> Binary32,
    F: Fn(Binary32, Binary32, Binary32) -> Binary32,
    E: Fn(Binary32, Binary32, Binary32) -> Binary32,
    H: Fn(S, Binary32, Binary32) -> (S, Binary32),
    L: Fn(S) -> bool,
    B: Fn(Binary32, Binary32, Binary32, Binary32) -> Binary32,
    X: Fn(Binary32, Binary32) -> Binary32,
    R: Fn(Binary32, Binary32, Binary32, Binary32) -> Binary32,
    P: Fn(Binary32, Binary32) -> Binary32,
    N: Fn(Binary32, Binary32) -> Binary32,
    Q: Fn(Binary32, usize) -> Binary32,
    D: Fn(Binary32, Binary32, Binary32) -> Binary32,
>(
    arithmetic: Arithmetic<S, I, A, M, F, E, H, L, B, X, R, P, N, Q, D>,
    group: UnisonGroup,
    before: Seq<PathState<S>>,
    taps: Seq<Binary32>,
    signals: Seq<Binary32>,
    feedback: Seq<Feedback<Binary32>>,
    group_after: UnisonGroup,
    after: Seq<PathState<S>>,
    outputs: Seq<Binary32>,
) -> bool {
    &&& outputs.len() == strings_in(group)
    &&& group_after == UnisonGroup {
        first: group_after.first,
        second: group_after.second,
        third: group_after.third,
        ..group
    }
    &&& group_after.second is Some <==> group.second is Some
    &&& group_after.third is Some <==> group.third is Some
    &&& forall|place: int|
        0 <= place < strings_in(group) ==> goes_round(
            arithmetic,
            string_of(group, place),
            before[place],
            taps[place],
            signals[place],
            feedback[place],
            string_of(group_after, place),
            #[trigger] after[place],
            outputs[place],
        )
}

proof fn lemma_all_go_round<
    S: Copy,
    I: Fn(Binary32, Binary32, Binary32, Binary32, Binary32) -> Binary32,
    A: Fn(Binary32, Binary32, Binary32) -> Binary32,
    M: Fn(Binary32, Binary32, Binary32) -> Binary32,
    F: Fn(Binary32, Binary32, Binary32) -> Binary32,
    E: Fn(Binary32, Binary32, Binary32) -> Binary32,
    H: Fn(S, Binary32, Binary32) -> (S, Binary32),
    L: Fn(S) -> bool,
    B: Fn(Binary32, Binary32, Binary32, Binary32) -> Binary32,
    X: Fn(Binary32, Binary32) -> Binary32,
    R: Fn(Binary32, Binary32, Binary32, Binary32) -> Binary32,
    P: Fn(Binary32, Binary32) -> Binary32,
    N: Fn(Binary32, Binary32) -> Binary32,
    Q: Fn(Binary32, usize) -> Binary32,
    D: Fn(Binary32, Binary32, Binary32) -> Binary32,
>(
    arithmetic: Arithmetic<S, I, A, M, F, E, H, L, B, X, R, P, N, Q, D>,
    group: UnisonGroup,
    before: Seq<PathState<S>>,
    heard: Seq<PathState<S>>,
    taps: Seq<Binary32>,
    signals: Seq<Binary32>,
    feedback: Seq<Feedback<Binary32>>,
    group_after: UnisonGroup,
    after: Seq<PathState<S>>,
    outputs: Seq<Binary32>,
)
    requires
        group.wf(),
        group.count() <= before.len(),
        sounding::are_bendable(before),
        forall|i: int| 0 <= i < before.len() ==> (#[trigger] before[i]).line.len() >= 1,
        arithmetic.all_hear(group, group.count(), before, heard, taps, signals),
        arithmetic.all_answer(
            group,
            group.count(),
            heard,
            taps,
            feedback,
            group_after,
            after,
            outputs,
        ),
    ensures
        all_go_round(
            arithmetic,
            group,
            before,
            taps,
            signals,
            feedback,
            group_after,
            after,
            outputs,
        ),
{
    assert forall|place: int| 0 <= place < strings_in(group) implies goes_round(
        arithmetic,
        string_of(group, place),
        before[place],
        taps[place],
        signals[place],
        feedback[place],
        string_of(group_after, place),
        #[trigger] after[place],
        outputs[place],
    ) by {
        assert(before[place].line.len() >= 1);
        assert(arithmetic.hears(
            group.at(place)->0,
            before[place],
            heard[place],
            taps[place],
            signals[place],
        ));
        assert(arithmetic.answers(
            group.at(place)->0,
            heard[place],
            taps[place],
            feedback[place],
            group_after.at(place)->0,
            after[place],
            outputs[place],
        ));
        lemma_goes_round(
            arithmetic,
            string_of(group, place),
            before[place],
            heard[place],
            taps[place],
            signals[place],
            feedback[place],
            string_of(group_after, place),
            after[place],
            outputs[place],
        );
    }
}

/// Every string of a note goes round in one sample, whichever its place, and what the
/// note gives is the sum of what they all give. They hear each other.
pub proof fn every_string_goes_round<
    S: Copy,
    I: Fn(Binary32, Binary32, Binary32, Binary32, Binary32) -> Binary32,
    A: Fn(Binary32, Binary32, Binary32) -> Binary32,
    M: Fn(Binary32, Binary32, Binary32) -> Binary32,
    F: Fn(Binary32, Binary32, Binary32) -> Binary32,
    E: Fn(Binary32, Binary32, Binary32) -> Binary32,
    H: Fn(S, Binary32, Binary32) -> (S, Binary32),
    L: Fn(S) -> bool,
    B: Fn(Binary32, Binary32, Binary32, Binary32) -> Binary32,
    X: Fn(Binary32, Binary32) -> Binary32,
    R: Fn(Binary32, Binary32, Binary32, Binary32) -> Binary32,
    P: Fn(Binary32, Binary32) -> Binary32,
    N: Fn(Binary32, Binary32) -> Binary32,
    Q: Fn(Binary32, usize) -> Binary32,
    D: Fn(Binary32, Binary32, Binary32) -> Binary32,
>(
    arithmetic: &Arithmetic<S, I, A, M, F, E, H, L, B, X, R, P, N, Q, D>,
    group: UnisonGroup,
    before: Seq<PathState<S>>,
    group_after: UnisonGroup,
    after: Seq<PathState<S>>,
    output: Binary32,
)
    requires
        group.wf(),
        group.count() <= before.len(),
        sounding::are_bendable(before),
        forall|i: int| 0 <= i < before.len() ==> (#[trigger] before[i]).line.len() >= 1,
        exists|note: &mut UnisonGroup, lines: &mut Vec<Waveguide<S>>|
            {
                &&& #[trigger] call_ensures(
                    Arithmetic::<S, I, A, M, F, E, H, L, B, X, R, P, N, Q, D>::sound_note,
                    (arithmetic, note, lines),
                    output,
                )
                &&& *note == group
                &&& *final(note) == group_after
                &&& sounding::states((*lines)@) == before
                &&& sounding::states((*final(lines))@) == after
            },
    ensures
        after.len() == before.len(),
        forall|i: int| strings_in(group) <= i < before.len() ==> #[trigger] after[i] == before[i],
        exists|
            taps: Seq<Binary32>,
            signals: Seq<Binary32>,
            feedback: Seq<Feedback<Binary32>>,
            outputs: Seq<Binary32>,
        |
            {
                &&& #[trigger] all_go_round(
                    *arithmetic,
                    group,
                    before,
                    taps,
                    signals,
                    feedback,
                    group_after,
                    after,
                    outputs,
                )
                &&& coupling::is_coupled(
                    group,
                    signals,
                    Binary32 { bits: 0 },
                    arithmetic.plus,
                    arithmetic.minus,
                    arithmetic.quotient,
                    arithmetic.blend,
                    feedback,
                )
                &&& is_sum(outputs, arithmetic.plus, output)
            },
{
    assert(group.count() == strings_in(group));
    let (heard, taps, signals, feedback, outputs) = choose|
        heard: Seq<PathState<S>>,
        taps: Seq<Binary32>,
        signals: Seq<Binary32>,
        feedback: Seq<Feedback<Binary32>>,
        outputs: Seq<Binary32>,
    |
        {
            &&& #[trigger] arithmetic.all_hear(
                group,
                group.count(),
                before,
                heard,
                taps,
                signals,
            )
            &&& coupling::is_coupled(
                group,
                signals,
                Binary32 { bits: 0 },
                arithmetic.plus,
                arithmetic.minus,
                arithmetic.quotient,
                arithmetic.blend,
                feedback,
            )
            &&& #[trigger] arithmetic.all_answer(
                group,
                group.count(),
                heard,
                taps,
                feedback,
                group_after,
                after,
                outputs,
            )
            &&& arithmetic.adds_up(outputs, output)
        };
    lemma_all_go_round(
        *arithmetic,
        group,
        before,
        heard,
        taps,
        signals,
        feedback,
        group_after,
        after,
        outputs,
    );
    let sums = lemma_sum(*arithmetic, outputs, output);
    assert(runs_up(outputs, arithmetic.plus, sums));
    assert(is_sum(outputs, arithmetic.plus, output));
    assert forall|i: int| strings_in(group) <= i < before.len() implies #[trigger] after[i]
        == before[i] by {
        assert(heard[i] == before[i]);
    }
}

/// Every string of a note goes round in one sample, whichever its place, and what the
/// note gives is the sum of what they all give. They hear each other and the bridge.
pub proof fn every_string_goes_round_at_a_bridge<
    S: Copy,
    I: Fn(Binary32, Binary32, Binary32, Binary32, Binary32) -> Binary32,
    A: Fn(Binary32, Binary32, Binary32) -> Binary32,
    M: Fn(Binary32, Binary32, Binary32) -> Binary32,
    F: Fn(Binary32, Binary32, Binary32) -> Binary32,
    E: Fn(Binary32, Binary32, Binary32) -> Binary32,
    H: Fn(S, Binary32, Binary32) -> (S, Binary32),
    L: Fn(S) -> bool,
    B: Fn(Binary32, Binary32, Binary32, Binary32) -> Binary32,
    X: Fn(Binary32, Binary32) -> Binary32,
    R: Fn(Binary32, Binary32, Binary32, Binary32) -> Binary32,
    P: Fn(Binary32, Binary32) -> Binary32,
    N: Fn(Binary32, Binary32) -> Binary32,
    Q: Fn(Binary32, usize) -> Binary32,
    D: Fn(Binary32, Binary32, Binary32) -> Binary32,
>(
    arithmetic: &Arithmetic<S, I, A, M, F, E, H, L, B, X, R, P, N, Q, D>,
    group: UnisonGroup,
    before: Seq<PathState<S>>,
    bus_before: BridgeBus<Binary32>,
    index: usize,
    group_after: UnisonGroup,
    after: Seq<PathState<S>>,
    bus_after: BridgeBus<Binary32>,
    output: Binary32,
)
    requires
        group.wf(),
        group.count() <= before.len(),
        sounding::are_bendable(before),
        forall|i: int| 0 <= i < before.len() ==> (#[trigger] before[i]).line.len() >= 1,
        exists|note: &mut UnisonGroup, lines: &mut Vec<Waveguide<S>>, bus: &mut BridgeBus<Binary32>|
            {
                &&& #[trigger] call_ensures(
                    Arithmetic::<S, I, A, M, F, E, H, L, B, X, R, P, N, Q, D>::sound_note_with_bridge,
                    (arithmetic, note, lines, bus, index),
                    output,
                )
                &&& *note == group
                &&& *final(note) == group_after
                &&& sounding::states((*lines)@) == before
                &&& sounding::states((*final(lines))@) == after
                &&& *bus == bus_before
                &&& *final(bus) == bus_after
            },
    ensures
        after.len() == before.len(),
        forall|i: int| strings_in(group) <= i < before.len() ==> #[trigger] after[i] == before[i],
        exists|
            taps: Seq<Binary32>,
            signals: Seq<Binary32>,
            feedback: Seq<Feedback<Binary32>>,
            outputs: Seq<Binary32>,
        |
            {
                &&& #[trigger] all_go_round(
                    *arithmetic,
                    group,
                    before,
                    taps,
                    signals,
                    feedback,
                    group_after,
                    after,
                    outputs,
                )
                &&& coupling::is_coupled_with_bridge(
                    group,
                    signals,
                    Binary32 { bits: 0 },
                    bus_before,
                    index,
                    arithmetic.plus,
                    arithmetic.minus,
                    arithmetic.quotient,
                    arithmetic.blend,
                    arithmetic.times,
                    bus_after,
                    feedback,
                )
                &&& is_sum(outputs, arithmetic.plus, output)
            },
{
    assert(group.count() == strings_in(group));
    let (heard, taps, signals, feedback, outputs) = choose|
        heard: Seq<PathState<S>>,
        taps: Seq<Binary32>,
        signals: Seq<Binary32>,
        feedback: Seq<Feedback<Binary32>>,
        outputs: Seq<Binary32>,
    |
        {
            &&& #[trigger] arithmetic.all_hear(
                group,
                group.count(),
                before,
                heard,
                taps,
                signals,
            )
            &&& coupling::is_coupled_with_bridge(
                group,
                signals,
                Binary32 { bits: 0 },
                bus_before,
                index,
                arithmetic.plus,
                arithmetic.minus,
                arithmetic.quotient,
                arithmetic.blend,
                arithmetic.times,
                bus_after,
                feedback,
            )
            &&& #[trigger] arithmetic.all_answer(
                group,
                group.count(),
                heard,
                taps,
                feedback,
                group_after,
                after,
                outputs,
            )
            &&& arithmetic.adds_up(outputs, output)
        };
    lemma_all_go_round(
        *arithmetic,
        group,
        before,
        heard,
        taps,
        signals,
        feedback,
        group_after,
        after,
        outputs,
    );
    let sums = lemma_sum(*arithmetic, outputs, output);
    assert(runs_up(outputs, arithmetic.plus, sums));
    assert(is_sum(outputs, arithmetic.plus, output));
    assert forall|i: int| strings_in(group) <= i < before.len() implies #[trigger] after[i]
        == before[i] by {
        assert(heard[i] == before[i]);
    }
}

} // verus!
