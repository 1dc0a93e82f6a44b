//! What a report says of the durations that were counted.
use crate::timing;
use crate::timing::{CallbackTimer, TimingReport};
use vstd::prelude::*;

verus! {

/// `sums` runs from nothing over `counts`.
pub open spec fn runs_over(counts: Seq<u32>, sums: Seq<int>) -> bool {
    &&& sums.len() == counts.len() + 1
    &&& sums[0] == 0
    &&& forall|i: int| 0 <= i < counts.len() ==> #[trigger] sums[i + 1] == sums[i] + counts[i]
}

/// `micros` is the lower edge of the first bucket at which `part` in `whole` of `total`
/// durations have been counted, and one duration at the least; or of the last bucket.
pub open spec fn is_reached_at(
    counts: Seq<u32>,
    total: int,
    part: int,
    whole: int,
    micros: int,
) -> bool {
    exists|sums: Seq<int>, bucket: int|
        {
            &&& #[trigger] runs_over(counts, sums)
            &&& 0 <= bucket < 200
            &&& micros == 50 * bucket
            &&& #[trigger] sums[bucket] * whole < total * part || sums[bucket] < 1
            &&& bucket == 199 || sums[bucket + 1] * whole >= total * part && sums[bucket + 1] >= 1
        }
}

proof fn lemma_sums(counts: Seq<u32>) -> (sums: Seq<int>)
    ensures
        runs_over(counts, sums),
        forall|i: int|
            0 <= i <= counts.len() ==> #[trigger] sums[i] == timing::cumulative(counts, i),
{
    let sums = Seq::new(counts.len() + 1, |i: int| timing::cumulative(counts, i));
    assert forall|i: int| 0 <= i < counts.len() implies #[trigger] sums[i + 1] == sums[i]
        + counts[i] by {}
    sums
}

proof fn lemma_first(counts: Seq<u32>, needed: int, index: int)
    requires
        0 <= index < 200,
        timing::cumulative(counts, index) < needed,
    ensures
        ({
            let found = timing::first_reaching(counts, needed, index);
            &&& index <= found < 200
            &&& timing::cumulative(counts, found) < needed
            &&& found == 199 || timing::cumulative(counts, found + 1) >= needed
        }),
    decreases 200 - index,
{
    if index < 199 && timing::cumulative(counts, index + 1) < needed {
        lemma_first(counts, needed, index + 1);
    }
}

proof fn lemma_percentile(counts: Seq<u32>, total: int, part: int, whole: int)
    requires
        counts.len() == 200,
        total > 0,
        0 < part <= whole,
    ensures
        is_reached_at(counts, total, part, whole, timing::percentile(counts, total, part, whole)),
{
    let needed = timing::target(total, part, whole);
    let bucket = timing::first_reaching(counts, needed, 0);
    lemma_first(counts, needed, 0);
    let sums = lemma_sums(counts);
    let below = sums[bucket];
    let share = total * part;
    let raw = (share + whole - 1) / whole;
    vstd::arithmetic::div_mod::lemma_fundamental_div_mod(share + whole - 1, whole);
    vstd::arithmetic::div_mod::lemma_mod_bound(share + whole - 1, whole);
    assert(below < raw ==> below * whole < share) by (nonlinear_arith)
        requires
            share + whole - 1 == whole * raw + (share + whole - 1) % whole,
            0 <= (share + whole - 1) % whole < whole,
            whole > 0,
    ;
    if bucket < 199 {
        let above = sums[bucket + 1];
        assert(above >= raw ==> above * whole >= share) by (nonlinear_arith)
            requires
                share + whole - 1 == whole * raw + (share + whole - 1) % whole,
                0 <= (share + whole - 1) % whole < whole,
                whole > 0,
        ;
    }
    assert(sums[bucket] * whole < total * part || sums[bucket] < 1);
}

/// A report gives the buckets at which one half, nineteen in twenty, ninety-nine in a
/// hundred and nine hundred and ninety-nine in a thousand of all durations have been
/// counted, the slowest duration and how many there were; and nothing where none was
/// counted.
pub proof fn reports_are_of_the_counts(
    timer: &CallbackTimer,
    report: TimingReport,
)
    requires
        timer.wf(),
        timer.counts().len() == 200,
        call_ensures(CallbackTimer::report, (timer,), report),
    ensures
        timer.total() > 0
            ==> is_reached_at(
                timer.counts(),
                timer.total() as int,
                50,
                100,
                report.p50_micros as int,
            ),
        timer.total() > 0
            ==> is_reached_at(
                timer.counts(),
                timer.total() as int,
                95,
                100,
                report.p95_micros as int,
            ),
        timer.total() > 0
            ==> is_reached_at(
                timer.counts(),
                timer.total() as int,
                99,
                100,
                report.p99_micros as int,
            ),
        timer.total() > 0
            ==> is_reached_at(
                timer.counts(),
                timer.total() as int,
                999,
                1000,
                report.p99_9_micros as int,
            ),
        timer.total() > 0
            ==> report.max_micros == timer.slowest() && report.callback_count == timer.total(),
        timer.total() == 0
            ==> report.p50_micros == 0 && report.p95_micros == 0 && report.p99_micros == 0
                && report.p99_9_micros == 0 && report.max_micros == 0 && report.callback_count == 0,
{
    if timer.total() > 0 {
        lemma_percentile(timer.counts(), timer.total() as int, 50, 100);
        lemma_percentile(timer.counts(), timer.total() as int, 95, 100);
        lemma_percentile(timer.counts(), timer.total() as int, 99, 100);
        lemma_percentile(timer.counts(), timer.total() as int, 999, 1000);
    }
}

/// A timer begins with nothing counted, and one made of counters holds them.
pub proof fn timers_begin_empty(
    timer: CallbackTimer,
    buckets: Vec<u32>,
    count: u64,
    slowest: u64,
    made: CallbackTimer,
    bucket: int,
)
    requires
        0 <= bucket < 200,
        call_ensures(CallbackTimer::new, (), timer),
        call_ensures(CallbackTimer::from_counters, (buckets, count, slowest), made),
    ensures
        timer.counts().len() == 200,
        timer.counts()[bucket] == 0,
        timer.total() == 0,
        timer.slowest() == 0,
        made.counts() == buckets@,
        made.total() == count,
        made.slowest() == slowest,
{
}

} // verus!
