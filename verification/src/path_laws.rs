//! What comes back from a string's path: its delay line, its filters, its sections, and
//! the bridge that the strings share.
use crate::binary32::Binary32;
use crate::bounds_laws::lands;
use crate::bridge::{BridgeBus, Slot};
use crate::delay::{DelayLine, Taps};
use crate::dispersion;
use crate::dispersion::{DispersionCascade, Section};
use crate::filter;
use crate::filter::{DcBlocker, LoopFilter};
use crate::math;
use vstd::arithmetic::power2::pow2;
use vstd::prelude::*;

verus! {

/// `kept` is `value`, but zero where that is too small to be heard.
pub open spec fn is_audible_part(value: Binary32, kept: Binary32) -> bool {
    &&& value.magnitude() < 0x15f7_9688 ==> kept.bits == 0
    &&& value.magnitude() >= 0x15f7_9688 ==> kept == value
}

/// What is written to a line comes back after as many writes as was asked: read
/// straight after a write, at no delay, it is the sample written; and one write later
/// everything is found one sample further back. Only the oldest sample is lost.
pub proof fn what_is_written_comes_back<
    T: Copy,
>(
    before: DelayLine<T>,
    after: DelayLine<T>,
    line: &DelayLine<T>,
    written: &DelayLine<T>,
    sample: T,
    delay: usize,
    earlier: T,
    later: T,
    newest: T,
)
    requires
        before.wf(),
        exists|ring: &mut DelayLine<T>| #[trigger]
            call_ensures(DelayLine::<T>::write, (ring, sample), ())
                && *ring == before && *final(ring) == after,
        *line == before,
        *written == after,
        delay + 1 < before@.len(),
        before@.len() <= 0x40_0000,
        call_ensures(DelayLine::<T>::read, (line, delay), earlier),
        call_ensures(DelayLine::<T>::read, (written, (delay + 1) as usize), later),
        call_ensures(DelayLine::<T>::read, (written, 0usize), newest),
    ensures
        newest == sample,
        later == earlier,
        after@.len() == before@.len(),
{
    vstd::arithmetic::div_mod::lemma_small_mod(0, after@.len());
    vstd::arithmetic::div_mod::lemma_small_mod(delay as nat, before@.len());
    vstd::arithmetic::div_mod::lemma_small_mod((delay + 1) as nat, after@.len());
}

proof fn lemma_run<T>(lines: Seq<Seq<T>>, samples: Seq<T>, count: int, age: int)
    requires
        lines.len() == samples.len() + 1,
        lines[0].len() >= 1,
        0 <= count <= samples.len(),
        0 <= age < lines[0].len(),
        forall|i: int|
            0 <= i < samples.len() ==> lines[i + 1] == seq![#[trigger] samples[i]]
                + lines[i].drop_last(),
    ensures
        lines[count].len() == lines[0].len(),
        age < count ==> lines[count][age] == samples[count - 1 - age],
    decreases count,
{
    if count > 0 {
        let i = count - 1;
        assert(lines[i + 1] == seq![samples[i]] + lines[i].drop_last());
        lemma_run(lines, samples, i, 0);
        if age > 0 {
            lemma_run(lines, samples, i, age - 1);
        }
    }
}

/// Every sample of a run that a line can hold comes back, each at its own delay: the
/// last after no delay, and the one written a number of samples before it after that
/// many.
pub proof fn runs_come_back<
    T: Copy,
>(
    lines: Seq<DelayLine<T>>,
    samples: Seq<T>,
    last: &DelayLine<T>,
    delay: usize,
    read: T,
)
    requires
        lines.len() == samples.len() + 1,
        lines[0].wf(),
        lines[0]@.len() >= 1,
        forall|i: int|
            #![trigger samples[i]]
            0 <= i < samples.len() ==> exists|ring: &mut DelayLine<T>| #[trigger]
                call_ensures(DelayLine::<T>::write, (ring, samples[i]), ()) && *ring
                    == lines[i] && *final(ring) == lines[i + 1],
        *last == lines.last(),
        delay < samples.len(),
        delay < lines[0]@.len(),
        call_ensures(DelayLine::<T>::read, (last, delay), read),
    ensures
        read == samples[samples.len() - 1 - delay],
{
    let contents = Seq::new(lines.len(), |i: int| lines[i]@);
    assert forall|i: int| 0 <= i < samples.len() implies contents[i + 1]
        == seq![#[trigger] samples[i]] + contents[i].drop_last() by {
        let ring = choose|ring: &mut DelayLine<T>| #[trigger]
            call_ensures(DelayLine::<T>::write, (ring, samples[i]), ()) && *ring == lines[i]
                && *final(ring) == lines[i + 1];
        assert((*final(ring))@ == seq![samples[i]] + (*ring)@.drop_last());
    }
    lemma_run(contents, samples, samples.len() as int, delay as int);
    vstd::arithmetic::div_mod::lemma_small_mod(delay as nat, lines[0]@.len());
}

/// A line reads between two neighbours: the taps are the samples on either side of the
/// delay, which is the one that was asked for, kept within the line.
pub proof fn taps_are_neighbours<
    T: Copy,
>(
    line: &DelayLine<T>,
    delay: Binary32,
    taps: Taps<T>,
    earlier: T,
    later: T,
)
    requires
        line.wf(),
        line@.len() >= 2,
        line@.len() <= 0x40_0000,
        call_ensures(DelayLine::<T>::read_interpolated, (line, delay), taps),
        call_ensures(DelayLine::<T>::read, (line, taps.whole), earlier),
        call_ensures(DelayLine::<T>::read, (line, (taps.whole + 1) as usize), later),
    ensures
        delay.within(Binary32 { bits: 0 }, Binary32::natural(line@.len() - 1))
            ==> taps.delay == delay,
        taps.whole == taps.delay.whole(),
        taps.earlier == earlier,
        taps.later == later,
{
    vstd::arithmetic::div_mod::lemma_small_mod(taps.whole as nat, line@.len());
}

/// A line is as long as was asked, or the next power of two beyond; it is empty at
/// first, and empty again once cleared, at every delay.
pub proof fn lines_begin_empty<
    T: Copy,
>(
    requested: usize,
    silence: T,
    line: DelayLine<T>,
    before: DelayLine<T>,
    after: DelayLine<T>,
    delay: usize,
    read: T,
    cleared: &DelayLine<T>,
    reread: T,
)
    requires
        2 <= requested <= 0x40_0000,
        call_ensures(DelayLine::<T>::with_capacity, (requested, silence), line),
        call_ensures(DelayLine::<T>::read, (&line, delay), read),
        before.wf(),
        before@.len() >= 1,
        exists|ring: &mut DelayLine<T>| #[trigger]
            call_ensures(DelayLine::<T>::clear, (ring,), ())
                && *ring == before && *final(ring) == after,
        *cleared == after,
        call_ensures(DelayLine::<T>::read, (cleared, delay), reread),
    ensures
        requested <= line@.len() < 2 * requested,
        exists|exponent: nat| line@.len() == #[trigger] pow2(exponent),
        read == silence,
        reread == before.silence(),
        after@.len() == before@.len(),
{
}

/// A comb takes from every sample of a burst the one its delay earlier, as they stood
/// before: the first sample of the burst and the last alike. What is older than the
/// burst stays.
pub proof fn combs_reach_every_sample_of_a_burst<
    T: Copy,
    F: Fn(T, T) -> T,
>(
    before: DelayLine<T>,
    after: DelayLine<T>,
    burst: usize,
    comb: usize,
    difference: &F,
    age: int,
)
    requires
        comb > 0,
        burst + comb <= before@.len(),
        0 <= age < before@.len(),
        exists|ring: &mut DelayLine<T>| #[trigger]
            call_ensures(
                DelayLine::<T>::apply_strike_comb::<F>,
                (ring, burst, comb, difference),
                (),
            )
                && *ring == before && *final(ring) == after,
    ensures
        age < burst ==> difference.ensures((before@[age], before@[age + comb]), after@[age]),
        age >= burst ==> after@[age] == before@[age],
{
}

/// A loop filter averages each input with the one before it, smooths that with what it
/// gave last, and remembers both: two inputs in a row are averaged with each other.
pub proof fn loop_filters_remember_one_sample<
    A: Fn(Binary32, Binary32, Binary32) -> Binary32,
    S: Fn(Binary32, Binary32, Binary32) -> Binary32,
>(
    before: LoopFilter,
    between: LoopFilter,
    after: LoopFilter,
    first: Binary32,
    second: Binary32,
    average: &A,
    smooth: &S,
    heard: Binary32,
    output: Binary32,
)
    requires
        exists|loop_filter: &mut LoopFilter| #[trigger]
            call_ensures(LoopFilter::process::<A, S>, (loop_filter, first, average, smooth), heard)
                && *loop_filter == before && *final(loop_filter) == between,
        exists|loop_filter: &mut LoopFilter| #[trigger]
            call_ensures(
                LoopFilter::process::<A,
                S>,
                (loop_filter, second, average, smooth),
                output,
            )
                && *loop_filter == between && *final(loop_filter) == after,
    ensures
        exists|averaged: Binary32, smoothed: Binary32|
            {
                &&& #[trigger] average.ensures(
                    (first, before.last_input, before.zero_mix),
                    averaged,
                )
                &&& #[trigger] smooth.ensures((averaged, before.state, before.pole), smoothed)
                &&& is_audible_part(smoothed, heard)
            },
        exists|averaged: Binary32, smoothed: Binary32|
            {
                &&& #[trigger] average.ensures((second, first, before.zero_mix), averaged)
                &&& #[trigger] smooth.ensures((averaged, heard, before.pole), smoothed)
                &&& is_audible_part(smoothed, output)
            },
        after == (LoopFilter { state: output, last_input: second, ..before }),
{
}

/// A blocker of steady offsets works on its input, the one before it and what it gave
/// last: two inputs in a row meet.
pub proof fn blockers_remember_one_sample<
    S: Fn(Binary32, Binary32, Binary32, Binary32) -> Binary32,
>(
    before: DcBlocker,
    between: DcBlocker,
    after: DcBlocker,
    first: Binary32,
    second: Binary32,
    step: &S,
    heard: Binary32,
    output: Binary32,
)
    requires
        exists|blocker: &mut DcBlocker| #[trigger]
            call_ensures(DcBlocker::process::<S>, (blocker, first, step), heard)
                && *blocker == before && *final(blocker) == between,
        exists|blocker: &mut DcBlocker| #[trigger]
            call_ensures(DcBlocker::process::<S>, (blocker, second, step), output)
                && *blocker == between && *final(blocker) == after,
    ensures
        exists|stepped: Binary32|
            #[trigger] step.ensures(
                (first, before.last_input, before.last_output, before.pole),
                stepped,
            )
                && is_audible_part(stepped, heard),
        exists|stepped: Binary32|
            #[trigger] step.ensures((second, first, heard, before.pole), stepped)
                && is_audible_part(stepped, output),
        after == (DcBlocker { last_input: second, last_output: output, ..before }),
{
}

/// Filters are built with what was asked, kept where they are stable, and remember
/// nothing; clearing one makes it forget and changes nothing else, and setting a pole
/// keeps what it remembers.
pub proof fn filters_begin_and_forget(
    pole: Binary32,
    zero_mix: Binary32,
    built: LoopFilter,
    before: LoopFilter,
    moved: LoopFilter,
    reset: LoopFilter,
    blocker: DcBlocker,
    standing: DcBlocker,
    old_blocker: DcBlocker,
    forgotten: DcBlocker,
)
    requires
        call_ensures(LoopFilter::new, (pole, zero_mix), built),
        exists|loop_filter: &mut LoopFilter| #[trigger]
            call_ensures(LoopFilter::set_pole, (loop_filter, pole), ())
                && *loop_filter == before && *final(loop_filter) == moved,
        exists|loop_filter: &mut LoopFilter| #[trigger]
            call_ensures(LoopFilter::reset, (loop_filter,), ())
                && *loop_filter == before && *final(loop_filter) == reset,
        call_ensures(DcBlocker::new, (pole,), blocker),
        call_ensures(DcBlocker::default, (), standing),
        exists|blocked: &mut DcBlocker| #[trigger]
            call_ensures(DcBlocker::reset, (blocked,), ())
                && *blocked == old_blocker && *final(blocked) == forgotten,
    ensures
        lands(pole, 0, 0x3f7f_f972, built.pole),
        lands(zero_mix, 0, 0x3f00_0000, built.zero_mix),
        built.state.bits == 0 && built.last_input.bits == 0,
        lands(pole, 0, 0x3f7f_f972, moved.pole),
        moved == (LoopFilter { pole: moved.pole, ..before }),
        reset == (
            LoopFilter { state: Binary32 { bits: 0 }, last_input: Binary32 { bits: 0 }, ..before }
        ),
        lands(pole, 0, 0x3f7f_f972, blocker.pole),
        blocker.last_input.bits == 0 && blocker.last_output.bits == 0,
        standing.pole.bits == 0x3f7e_b852,
        standing.last_input.bits == 0 && standing.last_output.bits == 0,
        forgotten == (
            DcBlocker {
                last_input: Binary32 { bits: 0 },
                last_output: Binary32 { bits: 0 },
                ..old_blocker
            }
        ),
{
}

/// A frequency response is known for a finite frequency at a finite positive rate, and
/// for no other.
pub proof fn responses_are_known_for_numbers(
    frequency: Binary32,
    rate: Binary32,
    known: bool,
)
    requires
        call_ensures(filter::has_magnitude, (frequency, rate), known),
    ensures
        known
            <==> frequency.magnitude() < 0x7f80_0000 && rate.magnitude() < 0x7f80_0000
                && rate.rank() > 0,
{
}

/// `input` passes the first `active` sections, one after the other: each is fed what the
/// one before it gave, by its own coefficient and state, and keeps what it was fed as its
/// state; what the last one gives is `output`. No other section changes, and no
/// coefficient does.
pub open spec fn passes_every_section<
    F: Fn(Binary32, Binary32, Binary32) -> Binary32,
    E: Fn(Binary32, Binary32, Binary32) -> Binary32,
>(
    before: Seq<Section>,
    active: int,
    input: Binary32,
    feed: F,
    emit: E,
    after: Seq<Section>,
    output: Binary32,
) -> bool {
    &&& after.len() == before.len()
    &&& forall|i: int| active <= i < before.len() ==> #[trigger] after[i] == before[i]
    &&& forall|i: int|
        0 <= i < before.len() ==> (#[trigger] after[i]).coefficient == before[i].coefficient
    &&& exists|signals: Seq<Binary32>|
        {
            &&& #[trigger] signals.len() == active + 1
            &&& signals[0] == input
            &&& signals[active] == output
            &&& forall|i: int|
                0 <= i < active ==> {
                    &&& emit.ensures(
                        (before[i].coefficient, (#[trigger] after[i]).state, before[i].state),
                        signals[i + 1],
                    )
                    &&& exists|fed: Binary32| #[trigger]
                        feed.ensures(
                            (signals[i], before[i].coefficient, before[i].state),
                            fed,
                        ) && is_audible_part(fed, after[i].state)
                }
        }
}

/// A bent signal passes every section.
pub proof fn lemma_passes<
    F: Fn(Binary32, Binary32, Binary32) -> Binary32,
    E: Fn(Binary32, Binary32, Binary32) -> Binary32,
>(
    before: Seq<Section>,
    active: int,
    input: Binary32,
    feed: F,
    emit: E,
    after: Seq<Section>,
    output: Binary32,
)
    requires
        0 <= active <= before.len(),
        dispersion::is_bent(before, active, input, feed, emit, after, output),
    ensures
        passes_every_section(before, active, input, feed, emit, after, output),
{
    let signals = choose|signals: Seq<Binary32>|
        {
            &&& signals.len() == active + 1
            &&& signals[0] == input
            &&& signals.last() == output
            &&& #[trigger] dispersion::are_passed(before, after, signals, feed, emit)
        };
    assert(signals.len() == active + 1);
    assert forall|i: int| 0 <= i < active implies {
        &&& emit.ensures(
            (before[i].coefficient, (#[trigger] after[i]).state, before[i].state),
            signals[i + 1],
        )
        &&& exists|fed: Binary32| #[trigger]
            feed.ensures((signals[i], before[i].coefficient, before[i].state), fed)
                && is_audible_part(fed, after[i].state)
    } by {
        assert(dispersion::passes(before[i], signals[i], after[i], signals[i + 1], feed, emit));
    }
    assert forall|i: int| 0 <= i < before.len() implies (#[trigger] after[i]).coefficient
        == before[i].coefficient by {
        if i < active {
            assert(dispersion::passes(
                before[i],
                signals[i],
                after[i],
                signals[i + 1],
                feed,
                emit,
            ));
        }
    }
}

/// A signal passes every active section of a cascade, one after the other: each is fed
/// what the one before it gave, by its own coefficient and state, and keeps what it was
/// fed as its state. No other section changes, and no coefficient does.
pub proof fn signals_pass_every_active_section<
    F: Fn(Binary32, Binary32, Binary32) -> Binary32,
    E: Fn(Binary32, Binary32, Binary32) -> Binary32,
>(
    before: DispersionCascade,
    after: DispersionCascade,
    input: Binary32,
    output: Binary32,
    feed: &F,
    emit: &E,
)
    requires
        before.wf(),
        exists|cascade: &mut DispersionCascade| #[trigger]
            call_ensures(DispersionCascade::process::<F, E>, (cascade, input, feed, emit), output)
                && *cascade == before && *final(cascade) == after,
    ensures
        after.active() == before.active(),
        after@.len() == before@.len(),
        forall|i: int| before.active() <= i < before@.len() ==> #[trigger] after@[i] == before@[i],
        forall|i: int|
            0 <= i < before@.len() ==> (#[trigger] after@[i]).coefficient == before@[i].coefficient,
        passes_every_section(before@, before.active() as int, input, *feed, *emit, after@, output),
{
    lemma_passes(before@, before.active() as int, input, *feed, *emit, after@, output);
}

/// An inharmonicity that is set bends every section alike: all have one coefficient,
/// and each keeps its state. Clearing makes every section forget and bends none.
pub proof fn every_section_is_bent_alike<
    S: Fn(Binary32) -> Binary32,
>(
    before: DispersionCascade,
    bent: DispersionCascade,
    reset: DispersionCascade,
    inharmonicity: Binary32,
    scale: &S,
)
    requires
        before.wf(),
        exists|cascade: &mut DispersionCascade| #[trigger]
            call_ensures(
                DispersionCascade::set_inharmonicity::<S>,
                (cascade, inharmonicity, scale),
                (),
            )
                && *cascade == before && *final(cascade) == bent,
        exists|cascade: &mut DispersionCascade| #[trigger]
            call_ensures(DispersionCascade::reset, (cascade,), ())
                && *cascade == before && *final(cascade) == reset,
    ensures
        bent.active() == before.active(),
        reset.active() == before.active(),
        bent@.len() == 8 && reset@.len() == 8,
        forall|i: int|
            0 <= i < 8
                ==> (#[trigger] bent@[i]).state == before@[i].state
                    && bent@[i].coefficient == bent@[0].coefficient,
        forall|i: int|
            0 <= i < 8
                ==> (#[trigger] reset@[i]).state.bits == 0
                    && reset@[i].coefficient == before@[i].coefficient,
        exists|b: Binary32, scaled: Binary32|
            {
                &&& #[trigger] lands(inharmonicity, 0, 0x3d4c_cccd, b)
                &&& #[trigger] scale.ensures((b,), scaled)
                &&& is_stable_part(scaled, bent@[0].coefficient)
            },
{
    let coefficient = choose|coefficient: Binary32| #[trigger]
        dispersion::is_coefficient(inharmonicity, *scale, coefficient) && forall|i: int|
            0 <= i < 8 ==> #[trigger] bent@[i] == (Section { coefficient, ..before@[i] });
    assert(bent@[0].coefficient == coefficient);
    let b = dispersion::playable(inharmonicity);
    assert(lands(inharmonicity, 0, 0x3d4c_cccd, b));
}

/// `kept` is `value` kept between minus and plus four fifths, and minus four fifths where
/// `value` is no number.
pub open spec fn is_stable_part(value: Binary32, kept: Binary32) -> bool {
    &&& value.nan() ==> kept.bits == 0xbf4c_cccd
    &&& !value.nan() && value.rank() < -0x3f4c_cccd ==> kept.bits == 0xbf4c_cccd
    &&& !value.nan() && -0x3f4c_cccd <= value.rank() <= 0x3f4c_cccd ==> kept == value
    &&& !value.nan() && value.rank() > 0x3f4c_cccd ==> kept.bits == 0x3f4c_cccd
}

/// A cascade has as many active sections as its string asks for, to the nearest whole
/// number and eight at the most: never fewer for a string that asks for more.
pub proof fn more_sections_for_who_asks_more<
    W: Fn(Binary32) -> Binary32,
>(
    frequency: Binary32,
    other: Binary32,
    wanted: &W,
    count: usize,
    other_count: usize,
)
    requires
        call_ensures(dispersion::section_count::<W>, (frequency, wanted), count),
        call_ensures(dispersion::section_count::<W>, (other, wanted), other_count),
        frequency.finite() && frequency.rank() > 0,
        other.finite() && other.rank() > 0,
        forall|asked: Binary32, more: Binary32|
            #[trigger] wanted.ensures((frequency,), asked)
                && #[trigger] wanted.ensures((other,), more)
                ==> asked.at_most(more),
    ensures
        count <= other_count <= 8,
        exists|asked: Binary32|
            {
                &&& #[trigger] wanted.ensures((frequency,), asked)
                &&& count == 0 <==> asked.nan() || asked.rank() < 0x3f00_0000
                &&& count == 1 <==> !asked.nan() && 0x3f00_0000 <= asked.rank() < 0x3fc0_0000
                &&& count == 2 <==> !asked.nan() && 0x3fc0_0000 <= asked.rank() < 0x4020_0000
                &&& count == 3 <==> !asked.nan() && 0x4020_0000 <= asked.rank() < 0x4060_0000
                &&& count == 4 <==> !asked.nan() && 0x4060_0000 <= asked.rank() < 0x4090_0000
                &&& count == 5 <==> !asked.nan() && 0x4090_0000 <= asked.rank() < 0x40b0_0000
                &&& count == 6 <==> !asked.nan() && 0x40b0_0000 <= asked.rank() < 0x40d0_0000
                &&& count == 7 <==> !asked.nan() && 0x40d0_0000 <= asked.rank() < 0x40f0_0000
                &&& count == 8 <==> !asked.nan() && 0x40f0_0000 <= asked.rank()
            },
{
    let asked = choose|asked: Binary32| #[trigger]
        wanted.ensures((frequency,), asked) && dispersion::is_rounded(
            math::bounded(asked, Binary32 { bits: 0 }, Binary32 { bits: 0x4100_0000 }),
            count as int,
        );
    let more = choose|asked: Binary32| #[trigger]
        wanted.ensures((other,), asked) && dispersion::is_rounded(
            math::bounded(asked, Binary32 { bits: 0 }, Binary32 { bits: 0x4100_0000 }),
            other_count as int,
        );
    assert(asked.at_most(more));
}

/// What is put on the bridge is heard one block later, by whoever asks there: two
/// contributions at one place come back as their sum, counted twice, once the next
/// block has begun; and not before.
pub proof fn a_bridge_answers_one_block_later<
    T: Copy,
    F: Fn(T, T) -> T,
>(
    empty: BridgeBus<T>,
    one: BridgeBus<T>,
    two: BridgeBus<T>,
    begun: BridgeBus<T>,
    asked: BridgeBus<T>,
    index: usize,
    first: T,
    second: T,
    third: T,
    plus: &F,
    early: Option<Slot<T>>,
    soon: Option<Slot<T>>,
    heard: Option<Slot<T>>,
)
    requires
        empty.wf(),
        empty.current().len() == empty.previous().len(),
        index < empty.current().len(),
        forall|i: int|
            0 <= i < empty.current().len()
                ==> (#[trigger] empty.current()[i]).count == 0
                    && empty.current()[i].sum == empty.silence(),
        forall|i: int|
            0 <= i < empty.previous().len() ==> (#[trigger] empty.previous()[i]).count == 0,
        exists|bus: &mut BridgeBus<T>| #[trigger]
            call_ensures(BridgeBus::<T>::add_and_read::<F>, (bus, index, first, plus), early)
                && *bus == empty && *final(bus) == one,
        exists|bus: &mut BridgeBus<T>| #[trigger]
            call_ensures(BridgeBus::<T>::add_and_read::<F>, (bus, index, second, plus), soon)
                && *bus == one && *final(bus) == two,
        exists|bus: &mut BridgeBus<T>| #[trigger]
            call_ensures(BridgeBus::<T>::begin_block, (bus,), ())
                && *bus == two && *final(bus) == begun,
        exists|bus: &mut BridgeBus<T>| #[trigger]
            call_ensures(BridgeBus::<T>::add_and_read::<F>, (bus, index, third, plus), heard)
                && *bus == begun && *final(bus) == asked,
    ensures
        early is None,
        soon is None,
        heard is Some,
        heard->0.count == 2,
        exists|sum: T|
            #[trigger] plus.ensures((empty.silence(), first), sum)
                && plus.ensures((sum, second), heard->0.sum),
        asked.current()[index as int].count == 1,
        plus.ensures((empty.silence(), third), asked.current()[index as int].sum),
        asked.current().len() == empty.current().len(),
        forall|i: int|
            0 <= i < empty.current().len() && i != index
                ==> (#[trigger] asked.current()[i]).count == 0 && asked.previous()[i].count == 0,
{
    assert(empty.current()[index as int].count == 0);
    assert(empty.previous()[index as int].count == 0);
    assert(plus.ensures((empty.silence(), first), one.current()[index as int].sum));
    assert forall|i: int| 0 <= i < empty.current().len() && i != index implies (
    #[trigger] asked.current()[i]).count == 0 && asked.previous()[i].count == 0 by {
        assert(empty.current()[i].count == 0);
        assert(one.current()[i] == empty.current()[i]);
        assert(two.current()[i] == one.current()[i]);
        assert(asked.current()[i] == begun.current()[i]);
    }
}

/// A cascade is built with every section at rest and bent alike, for the inharmonicity
/// that was asked, and has as many active sections as its frequency asks for; a
/// frequency that is none counts as that of the lowest key.
pub proof fn cascades_are_built_alike<
    W: Fn(Binary32) -> Binary32,
    S: Fn(Binary32) -> Binary32,
>(
    frequency: Binary32,
    inharmonicity: Binary32,
    wanted: &W,
    scale: &S,
    cascade: DispersionCascade,
    active: usize,
    coefficient: Binary32,
)
    requires
        call_ensures(
            DispersionCascade::new::<W,
            S>,
            (frequency, inharmonicity, wanted, scale),
            cascade,
        ),
        call_ensures(DispersionCascade::active_sections, (&cascade,), active),
        call_ensures(DispersionCascade::coefficient, (&cascade,), coefficient),
    ensures
        cascade@.len() == 8,
        active == cascade.active(),
        forall|i: int|
            0 <= i < 8
                ==> (#[trigger] cascade@[i]).state.bits == 0
                    && cascade@[i].coefficient == coefficient,
        exists|b: Binary32, scaled: Binary32|
            {
                &&& #[trigger] lands(inharmonicity, 0, 0x3d4c_cccd, b)
                &&& #[trigger] scale.ensures((b,), scaled)
                &&& is_stable_part(scaled, coefficient)
            },
        exists|hertz: Binary32, asked: Binary32|
            {
                &&& #[trigger] wanted.ensures((hertz,), asked)
                &&& frequency.finite() && frequency.rank() > 0 ==> hertz == frequency
                &&& !(frequency.finite() && frequency.rank() > 0) ==> hertz.bits == 0x41dc_0000
                &&& active == 0 <==> asked.nan() || asked.rank() < 0x3f00_0000
                &&& active == 8 <==> !asked.nan() && 0x40f0_0000 <= asked.rank()
            },
{
    let (asked, bent) = choose|asked: Binary32, coefficient: Binary32|
        {
            &&& #[trigger] wanted.ensures((dispersion::placeable(frequency),), asked)
            &&& dispersion::is_rounded(
                math::bounded(asked, Binary32 { bits: 0 }, Binary32 { bits: 0x4100_0000 }),
                cascade.active() as int,
            )
            &&& #[trigger] dispersion::is_coefficient(inharmonicity, *scale, coefficient)
            &&& forall|i: int|
                0 <= i < 8 ==> (#[trigger] cascade@[i]).coefficient == coefficient
        };
    assert(cascade@[0].coefficient == bent);
    let b = dispersion::playable(inharmonicity);
    assert(lands(inharmonicity, 0, 0x3d4c_cccd, b));
}

/// A string that is stiffer than can be played is bent as far as can be played, and no
/// further.
pub proof fn stiffness_is_kept_playable<
    S: Fn(Binary32) -> Binary32,
>(
    inharmonicity: Binary32,
    scale: &S,
    coefficient: Binary32,
)
    requires
        call_ensures(
            dispersion::coefficient_from_inharmonicity::<S>,
            (inharmonicity, scale),
            coefficient,
        ),
    ensures
        exists|b: Binary32, scaled: Binary32|
            {
                &&& #[trigger] lands(inharmonicity, 0, 0x3d4c_cccd, b)
                &&& #[trigger] scale.ensures((b,), scaled)
                &&& is_stable_part(scaled, coefficient)
            },
{
    let b = dispersion::playable(inharmonicity);
    assert(lands(inharmonicity, 0, 0x3d4c_cccd, b));
}

} // verus!
