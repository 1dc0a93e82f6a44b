use piano::timing::{
    bucket_index, saturated_micros, CallbackTimer, TimingReport, BUCKET_COUNT, BUCKET_WIDTH_MICROS,
};
use std::time::Duration;

#[test]
fn an_empty_timer_reports_zero() {
    let timer = CallbackTimer::new();
    assert_eq!(timer.report(), TimingReport::default());
}

#[test]
fn percentiles_track_recorded_durations() {
    let mut timer = CallbackTimer::new();
    for micros in 0..1_000u64 {
        timer.record(Duration::from_micros(micros).as_micros());
    }
    let report = timer.report();
    assert!(report.p50_micros < report.p99_9_micros);
    assert!(report.max_micros >= 900);
    assert_eq!(report.callback_count, 1_000);
}

#[test]
fn no_percentile_ever_exceeds_the_true_maximum() {
    let mut timer = CallbackTimer::new();
    for _ in 0..50 {
        timer.record(Duration::from_micros(22).as_micros());
    }
    let report = timer.report();
    assert!(report.p50_micros <= report.max_micros);
    assert!(report.p99_9_micros <= report.max_micros);
}

#[test]
fn durations_far_beyond_the_histogram_never_panic() {
    let mut timer = CallbackTimer::new();
    timer.record(Duration::from_secs(3_600).as_micros());
    let report = timer.report();
    assert_eq!(report.callback_count, 1);
    assert!(report.max_micros > 0);
}

#[test]
fn percentiles_are_bucket_floors() {
    let mut timer = CallbackTimer::new();
    for micros in 0..1_000u128 {
        timer.record(micros);
    }
    let report = timer.report();
    assert_eq!(
        report,
        TimingReport {
            p50_micros: 450,
            p95_micros: 900,
            p99_micros: 950,
            p99_9_micros: 950,
            max_micros: 999,
            callback_count: 1_000,
        }
    );
}

#[test]
fn one_late_callback_shows_in_the_tail_only() {
    let mut timer = CallbackTimer::new();
    for _ in 0..999 {
        timer.record(60);
    }
    timer.record(u128::MAX);
    let report = timer.report();
    assert_eq!(report.p99_micros, 50);
    assert_eq!(report.p99_9_micros, 50);
    assert_eq!(report.max_micros, u64::MAX);
    timer.record(u128::MAX);
    assert_eq!(timer.report().p99_9_micros, 9_950);
}

#[test]
fn counters_kept_elsewhere_report_the_same() {
    let mut timer = CallbackTimer::new();
    let mut buckets = vec![0u32; BUCKET_COUNT];
    let mut slowest = 0u64;
    for micros in [3u128, 49, 50, 1_234, 9_999, 10_000, 123_456] {
        timer.record(micros);
        let counted = saturated_micros(micros);
        buckets[bucket_index(counted)] += 1;
        slowest = slowest.max(counted);
    }
    let restored = CallbackTimer::from_counters(buckets, 7, slowest);
    assert_eq!(restored.report(), timer.report());
}

#[test]
fn the_last_bucket_takes_everything_above() {
    assert_eq!(bucket_index(0), 0);
    assert_eq!(bucket_index(49), 0);
    assert_eq!(bucket_index(50), 1);
    assert_eq!(bucket_index(BUCKET_WIDTH_MICROS * 199), 199);
    assert_eq!(bucket_index(u64::MAX), 199);
    assert_eq!(saturated_micros(u128::from(u64::MAX) + 1), u64::MAX);
}

#[test]
fn a_percentile_is_the_bucket_of_the_duration_it_is_about() {
    let durations: Vec<u128> = (0..1_000u128).map(|index| (index * 7_919) % 12_345).collect();
    let mut sorted = durations.clone();
    sorted.sort_unstable();
    let lower_edge = |part: usize, whole: usize| -> u64 {
        let place = ((sorted.len() * part).div_ceil(whole)).max(1) - 1;
        (50 * (sorted[place] / 50).min(199)) as u64
    };
    let mut forwards = CallbackTimer::new();
    let mut backwards = CallbackTimer::new();
    for duration in &durations {
        forwards.record(*duration);
    }
    for duration in durations.iter().rev() {
        backwards.record(*duration);
    }
    let report = forwards.report();
    assert_eq!(report.p50_micros, lower_edge(50, 100));
    assert_eq!(report.p95_micros, lower_edge(95, 100));
    assert_eq!(report.p99_micros, lower_edge(99, 100));
    assert_eq!(report.p99_9_micros, lower_edge(999, 1_000));
    assert_eq!(report, backwards.report(), "in whatever order they came");
}
