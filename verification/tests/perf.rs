use periscope::clock::{Duration, Instant};
use periscope::perf::{percentile, FrameMeter, FrameStats, REPORT_EVERY};

fn now() -> Instant {
    Instant { nanos: 1_000_000_000_000 }
}

fn after(start: Instant, span: Duration) -> Instant {
    Instant { nanos: start.nanos + span.nanos }
}

fn meter() -> FrameMeter {
    FrameMeter::new(true)
}

/// Feeds `count` frames spaced `interval` apart, each taking `build` to draw.
fn run(
    meter: &mut FrameMeter,
    count: usize,
    interval: Duration,
    build: Duration,
) -> Option<FrameStats> {
    let mut now = now();
    let mut report = None;
    for _ in 0..count {
        let started = meter.start(now);
        report = meter.finish(started, after(now, build)).or(report);
        now = after(now, interval);
    }
    report
}

fn fps(report: &FrameStats) -> f64 {
    1_000_000_000.0 / report.p50.nanos as f64
}

#[test]
fn a_disabled_meter_records_nothing() {
    let mut meter = FrameMeter::new(false);
    assert!(run(&mut meter, 500, Duration::from_millis(8), Duration::from_millis(0)).is_none());
    assert_eq!(meter.total(), 0);
}

#[test]
fn a_report_arrives_once_enough_frames_have_passed() {
    let mut meter = meter();
    // One fewer interval than frames: the first frame has nothing to
    // measure against.
    assert!(
        run(
            &mut meter,
            REPORT_EVERY,
            Duration::from_millis(8),
            Duration::from_millis(0)
        )
        .is_none()
    );

    let report = run(&mut meter, 2, Duration::from_millis(8), Duration::from_millis(0))
        .expect("a report once the window fills");
    assert_eq!(report.frames, REPORT_EVERY);
}

#[test]
fn a_steady_eight_millisecond_frame_reads_as_125fps() {
    let mut meter = meter();
    let report = run(
        &mut meter,
        REPORT_EVERY + 2,
        Duration::from_millis(8),
        Duration::from_nanos(300_000),
    )
    .expect("a report");

    assert_eq!(report.p50, Duration::from_millis(8));
    assert!((fps(&report) - 125.0).abs() < 0.01, "{}", fps(&report));
    assert_eq!(report.over_budget, 0);
    assert_eq!(report.hitches, 0);
    assert_eq!(report.build_p50, Duration::from_nanos(300_000));
}

#[test]
fn frames_that_miss_sixty_fps_are_counted() {
    let mut meter = meter();
    let report = run(
        &mut meter,
        REPORT_EVERY + 2,
        Duration::from_millis(20),
        Duration::from_millis(0),
    )
    .expect("a report");

    // Every frame is over budget, and that has to be visible in the report
    // rather than averaged away. 20ms is late but not late enough to have
    // skipped a frame, so it is not a hitch.
    assert_eq!(report.over_budget, report.frames);
    assert_eq!(report.hitches, 0);
    assert!(fps(&report) < 60.0);

    let mut stalling = FrameMeter::new(true);
    let stalled = run(
        &mut stalling,
        REPORT_EVERY + 2,
        Duration::from_millis(40),
        Duration::from_millis(0),
    )
    .expect("a report");
    assert_eq!(stalled.hitches, stalled.frames);
}

#[test]
fn the_worst_frame_survives_the_percentiles() {
    let mut meter = meter();
    let mut now = now();
    let mut report = None;
    for index in 0..=REPORT_EVERY {
        let started = meter.start(now);
        report = meter.finish(started, now).or(report);
        // One catastrophic frame among fast ones.
        now = after(now, if index == 40 {
            Duration::from_millis(250)
        } else {
            Duration::from_millis(4)
        });
    }
    let report = report.expect("a report");

    assert_eq!(report.p50, Duration::from_millis(4));
    assert_eq!(report.max, Duration::from_millis(250));
    assert_eq!(report.over_budget, 1);
    assert_eq!(report.hitches, 1);
}

#[test]
fn a_vsync_locked_sixty_hertz_display_reads_as_sixty_fps_without_hitches() {
    // Real intervals from a 60Hz panel: they straddle the budget by
    // microseconds, so half of them count as "over budget" while nothing is
    // actually being dropped. `hitches` is what must stay at zero.
    let mut meter = meter();
    let mut now = now();
    let mut report = None;
    for index in 0..=REPORT_EVERY {
        let started = meter.start(now);
        report = meter.finish(started, now).or(report);
        now = after(now, if index % 2 == 0 {
            Duration::from_nanos(16_600_000)
        } else {
            Duration::from_nanos(16_720_000)
        });
    }
    let report = report.expect("a report");

    assert!((fps(&report) - 60.0).abs() < 0.5, "{}", fps(&report));
    assert!(report.over_budget > 0);
    assert_eq!(report.hitches, 0);
}

#[test]
fn percentiles_of_an_empty_series_are_zero_rather_than_a_panic() {
    assert_eq!(percentile(&vec![], 50), Duration::from_millis(0));
}

#[test]
fn percentiles_use_nearest_rank() {
    let series: Vec<_> = (1..=100).map(Duration::from_millis).collect();
    assert_eq!(percentile(&series, 50), Duration::from_millis(50));
    assert_eq!(percentile(&series, 95), Duration::from_millis(95));
}
