//! A histogram of how long audio callbacks take.
//!
//! A mean hides exactly the failure that matters: one late buffer in a thousand
//! is an audible click, and an average buries it. Every callback's duration goes
//! into a fixed bucket, so that percentiles can be read back once the run is
//! over.
use vstd::prelude::*;

verus! {

/// Width of one histogram bucket, in microseconds.
pub const BUCKET_WIDTH_MICROS: u64 = 50;

/// Bucket count, covering ten milliseconds; the last bucket takes everything
/// above.
pub const BUCKET_COUNT: usize = 200;

/// A duration in microseconds, as far as it can be counted.
pub open spec fn counted_micros(micros: u128) -> u64 {
    if micros > u64::MAX {
        u64::MAX
    } else {
        micros as u64
    }
}

/// The bucket that a duration falls into.
pub open spec fn bucket_of(micros: u64) -> int {
    if micros / BUCKET_WIDTH_MICROS >= BUCKET_COUNT {
        BUCKET_COUNT - 1
    } else {
        micros as int / BUCKET_WIDTH_MICROS as int
    }
}

/// How many durations fell into the buckets before `end`.
pub open spec fn cumulative(counts: Seq<u32>, end: int) -> int
    decreases end,
{
    if end <= 0 {
        0
    } else {
        cumulative(counts, end - 1) + counts[end - 1]
    }
}

/// The least number of durations that is `part` in `whole` of `total`, and at
/// least one.
pub open spec fn target(total: int, part: int, whole: int) -> int {
    let needed = (total * part + whole - 1) / whole;
    if needed < 1 {
        1
    } else {
        needed
    }
}

/// The first bucket from `index` on up to which at least `needed` durations
/// fell, or the last bucket.
pub open spec fn first_reaching(counts: Seq<u32>, needed: int, index: int) -> int
    decreases BUCKET_COUNT - index,
{
    if index >= BUCKET_COUNT - 1 {
        BUCKET_COUNT - 1
    } else if cumulative(counts, index + 1) >= needed {
        index
    } else {
        first_reaching(counts, needed, index + 1)
    }
}

/// The lower bound of the smallest bucket up to which `part` in `whole` of all
/// durations fell.
///
/// The lower bound, not the upper one: every duration in a bucket is at least
/// that long, so a percentile never exceeds the longest duration.
pub open spec fn percentile(counts: Seq<u32>, total: int, part: int, whole: int) -> int {
    first_reaching(counts, target(total, part, whole), 0) * BUCKET_WIDTH_MICROS
}

/// A snapshot of the distribution of callback durations, in microseconds.
#[derive(Debug, Clone, Copy, PartialEq, Eq, Structural)]
pub struct TimingReport {
    /// Median callback duration.
    pub p50_micros: u64,
    /// 95th percentile callback duration.
    pub p95_micros: u64,
    /// 99th percentile callback duration.
    pub p99_micros: u64,
    /// 99.9th percentile callback duration: the number that predicts audible
    /// clicks.
    pub p99_9_micros: u64,
    /// Slowest callback observed during the run.
    pub max_micros: u64,
    /// Total callbacks recorded.
    pub callback_count: u64,
}

impl Default for TimingReport {
    fn default() -> (report: Self)
        ensures
            report == empty_report(),
    {
        TimingReport {
            p50_micros: 0,
            p95_micros: 0,
            p99_micros: 0,
            p99_9_micros: 0,
            max_micros: 0,
            callback_count: 0,
        }
    }
}

/// The report of a timer that has recorded nothing.
pub open spec fn empty_report() -> TimingReport {
    TimingReport {
        p50_micros: 0,
        p95_micros: 0,
        p99_micros: 0,
        p99_9_micros: 0,
        max_micros: 0,
        callback_count: 0,
    }
}

/// The bucket that a duration falls into.
pub fn bucket_index(micros: u64) -> (index: usize)
    ensures
        index == bucket_of(micros),
        index < BUCKET_COUNT,
{
    let index: u64 = micros / BUCKET_WIDTH_MICROS;
    if index >= BUCKET_COUNT as u64 {
        BUCKET_COUNT - 1
    } else {
        index as usize
    }
}

/// A duration in microseconds, saturating at the largest that can be counted.
pub fn saturated_micros(micros: u128) -> (counted: u64)
    ensures
        counted == counted_micros(micros),
{
    if micros > u64::MAX as u128 {
        u64::MAX
    } else {
        micros as u64
    }
}

/// Records callback durations.
#[derive(Debug, Clone)]
pub struct CallbackTimer {
    buckets: Vec<u32>,
    count: u64,
    max_micros: u64,
}

impl CallbackTimer {
    /// There are [`BUCKET_COUNT`] buckets.
    pub closed spec fn wf(&self) -> bool {
        self.buckets@.len() == BUCKET_COUNT
    }

    /// How many durations fell into each bucket.
    pub closed spec fn counts(&self) -> Seq<u32> {
        self.buckets@
    }

    /// How many durations were recorded.
    pub closed spec fn total(&self) -> u64 {
        self.count
    }

    /// The longest duration.
    pub closed spec fn slowest(&self) -> u64 {
        self.max_micros
    }

    /// No counter has wrapped: the buckets add up to the total, and a bucket
    /// that holds anything lies within the longest duration.
    pub open spec fn exact(&self) -> bool {
        &&& cumulative(self.counts(), BUCKET_COUNT as int) == self.total()
        &&& forall|i: int|
            0 <= i < BUCKET_COUNT && #[trigger] self.counts()[i] > 0 ==> i * BUCKET_WIDTH_MICROS
                <= self.slowest()
    }

    /// An empty timer.
    pub fn new() -> (timer: Self)
        ensures
            timer.wf(),
            timer.counts() == Seq::new(BUCKET_COUNT as nat, |i: int| 0u32),
            timer.total() == 0,
            timer.slowest() == 0,
            timer.exact(),
    {
        let mut buckets: Vec<u32> = Vec::with_capacity(BUCKET_COUNT);
        while buckets.len() < BUCKET_COUNT
            invariant
                buckets@.len() <= BUCKET_COUNT,
                forall|i: int| 0 <= i < buckets@.len() ==> buckets@[i] == 0,
            decreases BUCKET_COUNT - buckets@.len(),
        {
            buckets.push(0);
        }
        let timer = CallbackTimer { buckets, count: 0, max_micros: 0 };
        proof {
            lemma_empty(timer.counts(), BUCKET_COUNT as int);
        }
        timer
    }

    /// A timer that has already counted: the buckets, the number of durations
    /// and the longest of them, as read from counters kept elsewhere.
    pub fn from_counters(buckets: Vec<u32>, count: u64, max_micros: u64) -> (timer: Self)
        requires
            buckets@.len() == BUCKET_COUNT,
        ensures
            timer.wf(),
            timer.counts() == buckets@,
            timer.total() == count,
            timer.slowest() == max_micros,
    {
        CallbackTimer { buckets, count, max_micros }
    }

    /// Records one callback's duration, in microseconds. The counters wrap
    /// around rather than overflow.
    pub fn record(&mut self, micros: u128)
        requires
            old(self).wf(),
        ensures
            final(self).wf(),
            ({
                let counted = counted_micros(micros);
                let bucket = bucket_of(counted);
                let before = old(self).counts()[bucket];
                &&& final(self).counts() == old(self).counts().update(
                    bucket,
                    if before == u32::MAX {
                        0
                    } else {
                        (before + 1) as u32
                    },
                )
                &&& final(self).slowest() == if counted > old(self).slowest() {
                    counted
                } else {
                    old(self).slowest()
                }
            }),
            final(self).total() == if old(self).total() == u64::MAX {
                0
            } else {
                old(self).total() + 1
            },
            old(self).exact() && old(self).total() < u32::MAX ==> final(self).exact(),
    {
        let counted: u64 = saturated_micros(micros);
        let bucket: usize = bucket_index(counted);
        let before: u32 = self.buckets[bucket];
        let after: u32 = if before == u32::MAX {
            0
        } else {
            before + 1
        };
        self.buckets.set(bucket, after);
        self.count = if self.count == u64::MAX {
            0
        } else {
            self.count + 1
        };
        if counted > self.max_micros {
            self.max_micros = counted;
        }
        proof {
            let old_counts = old(self).counts();
            if old(self).exact() && old(self).total() < u32::MAX {
                lemma_at_most(old_counts, bucket as int, BUCKET_COUNT as int);
                lemma_update(old_counts, bucket as int, after, BUCKET_COUNT as int);
                assert forall|i: int|
                    0 <= i < BUCKET_COUNT && #[trigger] self.counts()[i] > 0 implies i
                    * BUCKET_WIDTH_MICROS <= self.slowest() by {
                    if i != bucket {
                        assert(self.counts()[i] == old_counts[i]);
                    }
                }
            }
        }
    }

    /// Reads back a percentile report.
    pub fn report(&self) -> (report: TimingReport)
        requires
            self.wf(),
        ensures
            self.total() == 0 ==> report == empty_report(),
            self.total() > 0 ==> {
                &&& report.p50_micros == percentile(self.counts(), self.total() as int, 50, 100)
                &&& report.p95_micros == percentile(self.counts(), self.total() as int, 95, 100)
                &&& report.p99_micros == percentile(self.counts(), self.total() as int, 99, 100)
                &&& report.p99_9_micros == percentile(
                    self.counts(),
                    self.total() as int,
                    999,
                    1000,
                )
                &&& report.max_micros == self.slowest()
                &&& report.callback_count == self.total()
            },
            report.p50_micros <= report.p95_micros <= report.p99_micros <= report.p99_9_micros,
            self.exact() ==> report.p99_9_micros <= report.max_micros,
    {
        if self.count == 0 {
            return TimingReport::default();
        }
        proof {
            let counts = self.counts();
            let total = self.total() as int;
            percentiles_rise(counts, total, 50, 95, 100);
            percentiles_rise(counts, total, 95, 99, 100);
            assert(target(total, 99, 100) == target(total, 990, 1000));
            percentiles_rise(counts, total, 990, 999, 1000);
            if self.exact() {
                percentile_never_exceeds_slowest(counts, total, self.slowest() as int, 999, 1000);
            }
        }
        TimingReport {
            p50_micros: self.percentile(50, 100),
            p95_micros: self.percentile(95, 100),
            p99_micros: self.percentile(99, 100),
            p99_9_micros: self.percentile(999, 1000),
            max_micros: self.max_micros,
            callback_count: self.count,
        }
    }

    /// Lower bound of the smallest bucket whose cumulative count reaches `part`
    /// in `whole` of all durations.
    fn percentile(&self, part: u64, whole: u64) -> (micros: u64)
        requires
            self.wf(),
            part <= 1000,
            0 < whole <= 1000,
        ensures
            micros == percentile(self.counts(), self.total() as int, part as int, whole as int),
    {
        assert(self.count * part <= u64::MAX * 1000) by (nonlinear_arith)
            requires
                self.count <= u64::MAX,
                part <= 1000,
        ;
        let scaled: u128 = self.count as u128 * part as u128;
        let needed: u128 = (scaled + (whole as u128 - 1)) / whole as u128;
        let threshold: u128 = if needed < 1 {
            1
        } else {
            needed
        };
        let ghost counts = self.counts();
        let ghost wanted = target(self.total() as int, part as int, whole as int);
        let mut sum: u64 = 0;
        let mut index: usize = 0;
        while index < BUCKET_COUNT - 1
            invariant
                self.wf(),
                counts == self.counts(),
                index <= BUCKET_COUNT - 1,
                sum == cumulative(counts, index as int),
                sum <= index * 0xffff_ffff,
                threshold == wanted,
                wanted == target(self.total() as int, part as int, whole as int),
                first_reaching(counts, wanted, 0) == first_reaching(counts, wanted, index as int),
            decreases BUCKET_COUNT - index,
        {
            sum = sum + self.buckets[index] as u64;
            assert(sum == cumulative(counts, index + 1));
            if sum as u128 >= threshold {
                return index as u64 * BUCKET_WIDTH_MICROS;
            }
            index = index + 1;
        }
        (BUCKET_COUNT as u64 - 1) * BUCKET_WIDTH_MICROS
    }
}

proof fn lemma_empty(counts: Seq<u32>, end: int)
    requires
        0 <= end <= counts.len(),
        forall|i: int| 0 <= i < counts.len() ==> counts[i] == 0,
    ensures
        cumulative(counts, end) == 0,
    decreases end,
{
    if end > 0 {
        lemma_empty(counts, end - 1);
    }
}

/// No bucket holds more than all of them together.
proof fn lemma_at_most(counts: Seq<u32>, index: int, end: int)
    requires
        0 <= end <= counts.len(),
        0 <= index,
    ensures
        0 <= cumulative(counts, end),
        index < end ==> counts[index] <= cumulative(counts, end),
    decreases end,
{
    if end > 0 {
        lemma_at_most(counts, index, end - 1);
    }
}

/// Changing one bucket changes the sum by as much.
proof fn lemma_update(counts: Seq<u32>, index: int, value: u32, end: int)
    requires
        0 <= index < counts.len(),
        0 <= end <= counts.len(),
    ensures
        cumulative(counts.update(index, value), end) == cumulative(counts, end) + if index < end {
            value - counts[index]
        } else {
            0
        },
    decreases end,
{
    if end > 0 {
        lemma_update(counts, index, value, end - 1);
    }
}

/// No percentile exceeds the longest duration recorded, as long as no counter
/// has wrapped.
pub proof fn percentile_never_exceeds_slowest(
    counts: Seq<u32>,
    total: int,
    slowest: int,
    part: int,
    whole: int,
)
    requires
        counts.len() == BUCKET_COUNT,
        total > 0,
        0 <= part <= whole,
        0 < whole,
        cumulative(counts, BUCKET_COUNT as int) == total,
        forall|i: int|
            0 <= i < BUCKET_COUNT && #[trigger] counts[i] > 0 ==> i * BUCKET_WIDTH_MICROS
                <= slowest,
    ensures
        percentile(counts, total, part, whole) <= slowest,
{
    let needed = target(total, part, whole);
    lemma_target(total, part, whole);
    lemma_first_reaching(counts, needed, 0);
}

/// What is asked for never exceeds what there is.
proof fn lemma_target(total: int, part: int, whole: int)
    requires
        total > 0,
        0 <= part <= whole,
        0 < whole,
    ensures
        1 <= target(total, part, whole) <= total,
{
    assert(total * part <= total * whole) by (nonlinear_arith)
        requires
            total > 0,
            part <= whole,
    ;
    vstd::arithmetic::div_mod::lemma_div_is_ordered(
        total * part + whole - 1,
        total * whole + (whole - 1),
        whole,
    );
    vstd::arithmetic::div_mod::lemma_fundamental_div_mod_converse(
        total * whole + (whole - 1),
        whole,
        total,
        whole - 1,
    );
}

/// The bucket found holds something.
proof fn lemma_first_reaching(counts: Seq<u32>, needed: int, index: int)
    requires
        counts.len() == BUCKET_COUNT,
        0 <= index < BUCKET_COUNT,
        cumulative(counts, index) < needed <= cumulative(counts, BUCKET_COUNT as int),
    ensures
        ({
            let found = first_reaching(counts, needed, index);
            index <= found < BUCKET_COUNT && counts[found] > 0
        }),
    decreases BUCKET_COUNT - index,
{
    if index < BUCKET_COUNT - 1 && cumulative(counts, index + 1) < needed {
        lemma_first_reaching(counts, needed, index + 1);
    }
}

/// A larger share of the callbacks takes at least as long.
pub proof fn percentiles_rise(counts: Seq<u32>, total: int, low: int, high: int, whole: int)
    requires
        total >= 0,
        0 <= low <= high,
        0 < whole,
    ensures
        percentile(counts, total, low, whole) <= percentile(counts, total, high, whole),
{
    assert(total * low <= total * high) by (nonlinear_arith)
        requires
            total >= 0,
            low <= high,
    ;
    vstd::arithmetic::div_mod::lemma_div_is_ordered(
        total * low + whole - 1,
        total * high + whole - 1,
        whole,
    );
    lemma_first_reaching_rises(
        counts,
        target(total, low, whole),
        target(total, high, whole),
        0,
    );
}

proof fn lemma_first_reaching_rises(counts: Seq<u32>, low: int, high: int, index: int)
    requires
        low <= high,
    ensures
        first_reaching(counts, low, index) <= first_reaching(counts, high, index),
        index <= BUCKET_COUNT - 1 ==> index <= first_reaching(counts, high, index),
    decreases BUCKET_COUNT - index,
{
    if index < BUCKET_COUNT - 1 {
        lemma_first_reaching_rises(counts, low, high, index + 1);
    }
}

/// How many of some durations meet `wanted`.
pub open spec fn how_many(durations: Seq<u64>, wanted: spec_fn(u64) -> bool) -> int
    decreases durations.len(),
{
    if durations.len() == 0 {
        0
    } else {
        how_many(durations.drop_last(), wanted) + if wanted(durations.last()) {
            1int
        } else {
            0
        }
    }
}

/// `counts` are the buckets that `durations` fell into.
pub open spec fn is_histogram(durations: Seq<u64>, counts: Seq<u32>) -> bool {
    &&& counts.len() == BUCKET_COUNT
    &&& forall|bucket: int|
        0 <= bucket < BUCKET_COUNT ==> (#[trigger] counts[bucket]) as int == how_many(
            durations,
            |duration: u64| bucket_of(duration) == bucket,
        )
}

/// The durations are in order, the shortest first.
pub open spec fn is_ascending(durations: Seq<u64>) -> bool {
    forall|i: int, j: int| 0 <= i <= j < durations.len() ==> durations[i] <= durations[j]
}

/// A timer that has recorded nothing has empty buckets.
pub proof fn nothing_recorded_is_counted(counts: Seq<u32>)
    requires
        counts == Seq::new(BUCKET_COUNT as nat, |i: int| 0u32),
    ensures
        is_histogram(Seq::empty(), counts),
{
}

/// A duration that is recorded falls into its bucket and into no other.
pub proof fn recording_counts_once(durations: Seq<u64>, counts: Seq<u32>, duration: u64)
    requires
        is_histogram(durations, counts),
        durations.len() < u32::MAX,
    ensures
        is_histogram(
            durations.push(duration),
            counts.update(bucket_of(duration), (counts[bucket_of(duration)] + 1) as u32),
        ),
        counts[bucket_of(duration)] < u32::MAX,
{
    let longer = durations.push(duration);
    let placed = bucket_of(duration);
    assert(longer.drop_last() =~= durations);
    lemma_how_many_bounded(durations, |d: u64| bucket_of(d) == placed);
    assert(counts[placed] as int == how_many(durations, |d: u64| bucket_of(d) == placed));
    let after = counts.update(placed, (counts[placed] + 1) as u32);
    assert forall|bucket: int| 0 <= bucket < BUCKET_COUNT implies (#[trigger] after[bucket]) as int
        == how_many(longer, |d: u64| bucket_of(d) == bucket) by {
        assert(counts[bucket] as int == how_many(durations, |d: u64| bucket_of(d) == bucket));
    }
}

proof fn lemma_how_many_bounded(durations: Seq<u64>, wanted: spec_fn(u64) -> bool)
    ensures
        0 <= how_many(durations, wanted) <= durations.len(),
    decreases durations.len(),
{
    if durations.len() > 0 {
        lemma_how_many_bounded(durations.drop_last(), wanted);
    }
}

/// More durations meet what is asked less of.
proof fn lemma_how_many_grows(
    durations: Seq<u64>,
    wanted: spec_fn(u64) -> bool,
    weaker: spec_fn(u64) -> bool,
)
    requires
        forall|d: u64| #[trigger] wanted(d) ==> weaker(d),
    ensures
        how_many(durations, wanted) <= how_many(durations, weaker),
    decreases durations.len(),
{
    if durations.len() > 0 {
        lemma_how_many_grows(durations.drop_last(), wanted, weaker);
    }
}

/// The buckets up to one hold the durations that fell into them.
proof fn lemma_cumulative_counts(durations: Seq<u64>, counts: Seq<u32>, end: int)
    requires
        is_histogram(durations, counts),
        0 <= end <= BUCKET_COUNT,
    ensures
        cumulative(counts, end) == how_many(durations, |d: u64| bucket_of(d) < end),
    decreases end,
{
    if end <= 0 {
        lemma_none(durations, |d: u64| bucket_of(d) < end);
    } else {
        lemma_cumulative_counts(durations, counts, end - 1);
        assert(counts[end - 1] as int == how_many(durations, |d: u64| bucket_of(d) == end - 1));
        lemma_split_count(
            durations,
            |d: u64| bucket_of(d) < end,
            |d: u64| bucket_of(d) < end - 1,
            |d: u64| bucket_of(d) == end - 1,
        );
    }
}

proof fn lemma_none(durations: Seq<u64>, wanted: spec_fn(u64) -> bool)
    requires
        forall|i: int| 0 <= i < durations.len() ==> !wanted(#[trigger] durations[i]),
    ensures
        how_many(durations, wanted) == 0,
    decreases durations.len(),
{
    if durations.len() > 0 {
        lemma_none(durations.drop_last(), wanted);
    }
}

proof fn lemma_split_count(
    durations: Seq<u64>,
    all: spec_fn(u64) -> bool,
    one: spec_fn(u64) -> bool,
    other: spec_fn(u64) -> bool,
)
    requires
        forall|d: u64|
            #![trigger all(d)]
            all(d) == (one(d) || other(d)) && !(one(d) && other(d)),
    ensures
        how_many(durations, all) == how_many(durations, one) + how_many(durations, other),
    decreases durations.len(),
{
    if durations.len() > 0 {
        lemma_split_count(durations.drop_last(), all, one, other);
        assert(all(durations.last()) == (one(durations.last()) || other(durations.last())));
    }
}

/// Of durations in order, the first `place` and one more are no longer than the one at
/// `place`, and no more than the first `place` are shorter.
proof fn lemma_place_in_order(sorted: Seq<u64>, place: int, length: int)
    requires
        is_ascending(sorted),
        0 <= place < sorted.len(),
        0 <= length <= sorted.len(),
    ensures
        how_many(sorted.take(length), |d: u64| d < sorted[place]) <= place,
        length > place ==> how_many(sorted.take(length), |d: u64| d <= sorted[place]) >= place + 1,
        length <= place ==> how_many(sorted.take(length), |d: u64| d <= sorted[place]) == length,
    decreases length,
{
    let shorter = |d: u64| d < sorted[place];
    let part = sorted.take(length);
    if length > 0 {
        lemma_place_in_order(sorted, place, length - 1);
        assert(part.drop_last() =~= sorted.take(length - 1));
        assert(part.last() == sorted[length - 1]);
        if length <= place {
            lemma_how_many_bounded(part, shorter);
        }
    }
}

/// Taking one duration out of some leaves the others.
proof fn lemma_without_one(durations: Seq<u64>, index: int, wanted: spec_fn(u64) -> bool)
    requires
        0 <= index < durations.len(),
    ensures
        how_many(durations, wanted) == how_many(durations.remove(index), wanted) + if wanted(
            durations[index],
        ) {
            1int
        } else {
            0
        },
    decreases durations.len(),
{
    if index == durations.len() - 1 {
        assert(durations.remove(index) =~= durations.drop_last());
    } else {
        let fewer = durations.remove(index);
        lemma_without_one(durations.drop_last(), index, wanted);
        assert(fewer.drop_last() =~= durations.drop_last().remove(index));
        assert(fewer.last() == durations.last());
    }
}

/// How many durations meet something does not depend on their order.
pub proof fn order_does_not_matter(
    durations: Seq<u64>,
    others: Seq<u64>,
    wanted: spec_fn(u64) -> bool,
)
    requires
        durations.to_multiset() == others.to_multiset(),
    ensures
        how_many(durations, wanted) == how_many(others, wanted),
    decreases durations.len(),
{
    durations.to_multiset_ensures();
    others.to_multiset_ensures();
    assert(durations.len() == others.len());
    if durations.len() > 0 {
        let last = durations.last();
        assert(durations.to_multiset().count(last) > 0);
        assert(others.contains(last));
        let index = choose|i: int| 0 <= i < others.len() && others[i] == last;
        let fewer = others.remove(index);
        lemma_without_one(others, index, wanted);
        assert(durations.remove(durations.len() - 1) =~= durations.drop_last());
        assert(durations.drop_last().to_multiset() =~= fewer.to_multiset());
        order_does_not_matter(durations.drop_last(), fewer, wanted);
    }
}

/// At least `needed` durations fell into the buckets up to `bucket`.
pub open spec fn is_reached(counts: Seq<u32>, needed: int, bucket: int) -> bool {
    cumulative(counts, bucket + 1) >= needed
}

/// The first bucket to reach a number is the one before which none does.
proof fn lemma_reaches_first(counts: Seq<u32>, needed: int, index: int, bucket: int)
    requires
        0 <= index <= bucket < BUCKET_COUNT,
        forall|b: int| index <= b < bucket ==> !#[trigger] is_reached(counts, needed, b),
        is_reached(counts, needed, bucket),
    ensures
        first_reaching(counts, needed, index) == bucket,
    decreases bucket - index,
{
    if index < bucket {
        assert(!is_reached(counts, needed, index));
        lemma_reaches_first(counts, needed, index + 1, bucket);
    }
}

/// A percentile is the lower edge of the bucket that holds the duration it is about:
/// of `n` durations the `k`-th shortest, `k` being the least number that is `part` in
/// `whole` of `n`, and at least one. So it does not depend on the order of recording.
pub proof fn percentiles_are_of_the_durations(
    durations: Seq<u64>,
    sorted: Seq<u64>,
    counts: Seq<u32>,
    part: int,
    whole: int,
)
    requires
        durations.len() > 0,
        is_histogram(durations, counts),
        is_ascending(sorted),
        sorted.to_multiset() == durations.to_multiset(),
        0 <= part <= whole,
        0 < whole,
    ensures
        1 <= target(durations.len() as int, part, whole) <= sorted.len(),
        percentile(counts, durations.len() as int, part, whole) == BUCKET_WIDTH_MICROS * bucket_of(
            sorted[target(durations.len() as int, part, whole) - 1],
        ),
{
    let n = durations.len() as int;
    let k = target(n, part, whole);
    sorted.to_multiset_ensures();
    durations.to_multiset_ensures();
    assert(sorted.len() == n);
    assert(n * part + whole - 1 < (n + 1) * whole) by (nonlinear_arith)
        requires
            part <= whole,
            0 <= n,
            0 < whole,
    ;
    assert((n * part + whole - 1) / whole <= n) by (nonlinear_arith)
        requires
            n * part + whole - 1 < (n + 1) * whole,
            0 < whole,
    ;
    let duration = sorted[k - 1];
    let bucket = bucket_of(duration);
    lemma_place_in_order(sorted, k - 1, n);
    assert(sorted.take(n) =~= sorted);
    order_does_not_matter(sorted, durations, |d: u64| d < duration);
    order_does_not_matter(sorted, durations, |d: u64| d <= duration);
    assert forall|b: int| 0 <= b < bucket implies !#[trigger] is_reached(counts, k, b) by {
        lemma_cumulative_counts(durations, counts, b + 1);
        lemma_how_many_grows(
            durations,
            |d: u64| bucket_of(d) < b + 1,
            |d: u64| d < duration,
        );
    }
    lemma_cumulative_counts(durations, counts, bucket + 1);
    lemma_how_many_grows(
        durations,
        |d: u64| d <= duration,
        |d: u64| bucket_of(d) < bucket + 1,
    );
    lemma_reaches_first(counts, k, 0, bucket);
}

} // verus!
