//! Frame timing: how long frames take, and how many take too long.

use crate::clock::{since, Duration, Instant};
use crate::seqs::{count, filter_push};
use crate::sorting::{sort, sorted, sorting_keeps_items, Precedence};
use vstd::prelude::*;

verus! {

/// How many intervals make a report.
pub const REPORT_EVERY: usize = 120;

/// The time a frame may take at sixty frames a second, in nanoseconds.
pub const SIXTY_FPS: u128 = 16_666_667;

/// What a number of frames took.
#[derive(Clone, Copy, Debug, PartialEq, Eq, Structural)]
pub struct FrameStats {
    /// How many intervals between frames were measured.
    pub frames: usize,
    /// The median interval.
    pub p50: Duration,
    /// The interval that one in twenty frames exceeds.
    pub p95: Duration,
    /// The longest interval.
    pub max: Duration,
    /// The median time it took to build a frame.
    pub build_p50: Duration,
    /// Intervals longer than a frame at sixty a second.
    pub over_budget: usize,
    /// Intervals longer than two such frames.
    pub hitches: usize,
}

/// Shorter spans first.
pub open spec fn shorter() -> spec_fn(Duration, Duration) -> bool {
    |a: Duration, b: Duration| a.nanos < b.nanos
}

/// Picks the spans longer than a limit.
pub open spec fn longer_than(nanos: int) -> spec_fn(Duration) -> bool {
    |span: Duration| span.nanos > nanos
}

/// No time at all.
pub open spec fn no_time() -> Duration {
    Duration { nanos: 0 }
}

/// The place of a percentile among a number of values: the first one that so
/// many in a hundred do not exceed.
pub open spec fn percentile_place(len: nat, percent: nat) -> int {
    let rank = (percent * len + 99) / 100;
    let from_zero = if rank == 0 {
        0
    } else {
        rank - 1
    };
    if from_zero >= len {
        len - 1
    } else {
        from_zero as int
    }
}

/// A percentile of values in ascending order; nothing, if there are none.
pub open spec fn percentile_of(values: Seq<Duration>, percent: nat) -> Duration {
    if values.len() == 0 {
        no_time()
    } else {
        values[percentile_place(values.len(), percent)]
    }
}

/// What intervals and build times amount to.
pub open spec fn stats_of(intervals: Seq<Duration>, builds: Seq<Duration>) -> FrameStats {
    let ascending = sorted(intervals, shorter());
    FrameStats {
        frames: intervals.len() as usize,
        p50: percentile_of(ascending, 50),
        p95: percentile_of(ascending, 95),
        max: if ascending.len() > 0 {
            ascending.last()
        } else {
            no_time()
        },
        build_p50: percentile_of(sorted(builds, shorter()), 50),
        over_budget: count(ascending, longer_than(16_666_667)) as usize,
        hitches: count(ascending, longer_than(33_333_334)) as usize,
    }
}

struct Shorter;

impl Precedence<Duration> for Shorter {
    open spec fn rel(&self) -> spec_fn(Duration, Duration) -> bool {
        shorter()
    }

    fn before(&self, left: &Duration, right: &Duration) -> (first: bool) {
        left.nanos < right.nanos
    }
}

/// A percentile of values in ascending order: the smallest of them that so many
/// in a hundred do not exceed.
pub fn percentile(values: &Vec<Duration>, percent: usize) -> (value: Duration)
    requires
        percent <= 100,
    ensures
        value == percentile_of(values@, percent as nat),
{
    if values.len() == 0 {
        return Duration { nanos: 0 };
    }
    assert(0 <= percent * values.len() <= 100 * values.len()) by (nonlinear_arith)
        requires
            0 <= percent <= 100,
            0 <= values.len(),
    ;
    let rank: u128 = (percent as u128 * values.len() as u128 + 99) / 100;
    let from_zero: u128 = if rank == 0 {
        0
    } else {
        rank - 1
    };
    let last: usize = values.len() - 1;
    let place: usize = if from_zero >= values.len() as u128 {
        last
    } else {
        from_zero as usize
    };
    values[place]
}

fn count_longer(values: &Vec<Duration>, nanos: u128) -> (found: usize)
    ensures
        found == count(values@, longer_than(nanos as int)),
{
    let ghost wanted = longer_than(nanos as int);
    let mut found: usize = 0;
    let mut at: usize = 0;
    assert(values@.take(0) =~= seq![]);
    assert(values@.take(0).filter(wanted).len() == 0) by {
        reveal(Seq::filter);
    }
    while at < values.len()
        invariant
            at <= values.len(),
            wanted == longer_than(nanos as int),
            found <= at,
            found == count(values@.take(at as int), wanted),
        decreases values.len() - at,
    {
        proof {
            filter_push(values@.take(at as int), values@[at as int], wanted);
            assert(values@.take(at + 1) =~= values@.take(at as int).push(values@[at as int]));
        }
        if values[at].nanos > nanos {
            found += 1;
        }
        at += 1;
    }
    assert(values@.take(at as int) =~= values@);
    found
}

/// What a [`FrameMeter`] holds.
pub struct MeterModel {
    /// Whether anything is measured.
    pub enabled: bool,
    /// When the last frame started.
    pub last_render: Option<Instant>,
    /// The time between frames since the last report.
    pub intervals: Seq<Duration>,
    /// The time it took to build frames since the last report.
    pub builds: Seq<Duration>,
    /// How many frames were started.
    pub total: u64,
}

impl MeterModel {
    /// A meter that measured nothing yet.
    pub open spec fn fresh(enabled: bool) -> MeterModel {
        MeterModel { enabled, last_render: None, intervals: Seq::empty(), builds: Seq::empty(), total: 0 }
    }

    /// Whether nothing was measured where nothing is to be.
    pub open spec fn wf(self) -> bool {
        !self.enabled ==> self.last_render is None && self.intervals.len() == 0 && self.total == 0
    }

    /// After a frame started.
    pub open spec fn started(self, now: Instant) -> MeterModel {
        if self.enabled {
            MeterModel {
                last_render: Some(now),
                intervals: match self.last_render {
                    Some(last) => self.intervals.push(since(now, last)),
                    None => self.intervals,
                },
                total: (self.total + 1) as u64,
                ..self
            }
        } else {
            self
        }
    }

    /// What is reported once a frame is built, if there are enough intervals.
    pub open spec fn report(self, started: Option<Instant>, now: Instant) -> Option<FrameStats> {
        match started {
            Some(start) => if self.intervals.len() < REPORT_EVERY {
                None
            } else {
                Some(stats_of(self.intervals, self.builds.push(since(now, start))))
            },
            None => None,
        }
    }

    /// After a frame was built.
    pub open spec fn finished(self, started: Option<Instant>, now: Instant) -> MeterModel {
        match started {
            Some(start) => if self.intervals.len() < REPORT_EVERY {
                MeterModel { builds: self.builds.push(since(now, start)), ..self }
            } else {
                MeterModel { intervals: Seq::empty(), builds: Seq::empty(), ..self }
            },
            None => self,
        }
    }

    /// What starting a frame hands to finishing it.
    pub open spec fn token(self, now: Instant) -> Option<Instant> {
        if self.enabled {
            Some(now)
        } else {
            None
        }
    }

    /// What a frame that starts and is built reports.
    pub open spec fn frame_report(self, frame: (Instant, Instant)) -> Option<FrameStats> {
        self.started(frame.0).report(self.token(frame.0), frame.1)
    }

    /// After frames, each started and built before the next starts.
    pub open spec fn after(self, frames: Seq<(Instant, Instant)>) -> MeterModel
        decreases frames.len(),
    {
        if frames.len() == 0 {
            self
        } else {
            let before = self.after(frames.drop_last());
            let (start, built) = frames.last();
            before.started(start).finished(before.token(start), built)
        }
    }
}

/// Measures frames, when asked to.
#[derive(Debug)]
pub struct FrameMeter {
    enabled: bool,
    last_render: Option<Instant>,
    intervals: Vec<Duration>,
    builds: Vec<Duration>,
    total: u64,
}

impl View for FrameMeter {
    type V = MeterModel;

    closed spec fn view(&self) -> MeterModel {
        MeterModel {
            enabled: self.enabled,
            last_render: self.last_render,
            intervals: self.intervals@,
            builds: self.builds@,
            total: self.total,
        }
    }
}

impl Default for FrameMeter {
    fn default() -> (meter: Self)
        ensures
            meter@ == MeterModel::fresh(false),
            meter@.wf(),
    {
        FrameMeter::new(false)
    }
}

impl FrameMeter {
    /// A meter that measures, or does not.
    pub fn new(enabled: bool) -> (meter: Self)
        ensures
            meter@ == MeterModel::fresh(enabled),
            meter@.wf(),
    {
        FrameMeter { enabled, last_render: None, intervals: Vec::new(), builds: Vec::new(), total: 0 }
    }

    /// Whether anything is measured.
    pub fn enabled(&self) -> (enabled: bool)
        ensures
            enabled == self@.enabled,
    {
        self.enabled
    }

    /// How many frames were started.
    pub fn total(&self) -> (total: u64)
        ensures
            total == self@.total,
    {
        self.total
    }

    /// Whether another frame can be counted.
    pub fn can_start(&self) -> (can: bool)
        ensures
            can == (self@.total < u64::MAX),
    {
        self.total < u64::MAX
    }

    /// Notes that a frame starts, and gives back what [`FrameMeter::finish`]
    /// wants to know; nothing, where nothing is measured.
    pub fn start(&mut self, now: Instant) -> (started: Option<Instant>)
        requires
            old(self)@.wf(),
            old(self)@.total < u64::MAX,
        ensures
            final(self)@.wf(),
            started == old(self)@.token(now),
            final(self)@ == old(self)@.started(now),
    {
        if !self.enabled {
            return None;
        }
        if let Some(last) = self.last_render {
            self.intervals.push(now.saturating_duration_since(last));
        }
        self.last_render = Some(now);
        self.total = self.total + 1;
        Some(now)
    }

    /// Notes that a frame is built. Once there are enough intervals they are
    /// reported, and measuring starts over.
    pub fn finish(&mut self, started: Option<Instant>, now: Instant) -> (report: Option<FrameStats>)
        requires
            old(self)@.wf(),
        ensures
            final(self)@.wf(),
            report == old(self)@.report(started, now),
            final(self)@ == old(self)@.finished(started, now),
    {
        let started: Instant = match started {
            Some(started) => started,
            None => return None,
        };
        self.builds.push(now.saturating_duration_since(started));
        if self.intervals.len() < REPORT_EVERY {
            return None;
        }
        let stats: FrameStats = self.stats();
        self.intervals.clear();
        self.builds.clear();
        Some(stats)
    }

    /// What was measured since the last report.
    pub fn stats(&self) -> (stats: FrameStats)
        ensures
            stats == stats_of(self@.intervals, self@.builds),
    {
        let intervals: Vec<Duration> = sort(&self.intervals, &Shorter);
        let builds: Vec<Duration> = sort(&self.builds, &Shorter);
        proof {
            assert(self.intervals.deep_view() =~= self.intervals@);
            assert(self.builds.deep_view() =~= self.builds@);
            assert(intervals.deep_view() =~= intervals@);
            assert(builds.deep_view() =~= builds@);
            sorting_keeps_items(self.intervals@, shorter());
        }
        let none: Duration = Duration { nanos: 0 };
        FrameStats {
            frames: intervals.len(),
            p50: percentile(&intervals, 50),
            p95: percentile(&intervals, 95),
            max: if intervals.len() > 0 {
                intervals[intervals.len() - 1]
            } else {
                none
            },
            build_p50: percentile(&builds, 50),
            over_budget: count_longer(&intervals, SIXTY_FPS),
            hitches: count_longer(&intervals, SIXTY_FPS * 2),
        }
    }
}

/// A report is ordered as its names say: the median is at most the 95th
/// percentile, which is at most the maximum, and no interval is longer than
/// that; a hitch is over budget too.
pub proof fn reports_are_ordered(intervals: Seq<Duration>, builds: Seq<Duration>, i: int)
    requires
        0 <= i < intervals.len(),
        intervals.len() <= usize::MAX,
    ensures
        ({
            let stats = stats_of(intervals, builds);
            &&& stats.p50.nanos <= stats.p95.nanos <= stats.max.nanos
            &&& intervals[i].nanos <= stats.max.nanos
            &&& stats.hitches <= stats.over_budget <= stats.frames
        }),
{
    let ascending = sorted(intervals, shorter());
    sorting_keeps_items(intervals, shorter());
    crate::sorting::sorting_orders(intervals, shorter());
    crate::sorting::sorting_keeps_membership(intervals, shorter(), intervals[i]);
    assert(intervals.contains(intervals[i]));
    let k = choose|k: int| 0 <= k < ascending.len() && ascending[k] == intervals[i];
    let n = ascending.len() as int;
    let before = shorter();
    let (a, b) = (percentile_place(ascending.len(), 50), percentile_place(ascending.len(), 95));
    assert(0 <= a <= b <= n - 1);
    assert(k < n - 1 ==> !before(ascending[n - 1], ascending[k]));
    assert(a < b ==> !before(ascending[b], ascending[a]));
    assert(b < n - 1 ==> !before(ascending[n - 1], ascending[b]));
    fewer_are_longer(ascending);
    crate::seqs::filter_no_longer(ascending, longer_than(16_666_667));
}

proof fn fewer_are_longer(values: Seq<Duration>)
    ensures
        count(values, longer_than(33_333_334)) <= count(values, longer_than(16_666_667)),
    decreases values.len(),
{
    reveal(Seq::filter);
    if values.len() > 0 {
        fewer_are_longer(values.drop_last());
    }
}

/// A meter that is off counts nothing and reports nothing, whatever is called
/// and however often; one that is on counts every frame that is started.
pub proof fn a_disabled_meter_records_nothing(meter: MeterModel, given: Option<Instant>, now: Instant)
    requires
        meter.wf(),
        meter.total < u64::MAX,
    ensures
        MeterModel::fresh(meter.enabled).wf(),
        meter.started(now).wf(),
        meter.finished(given, now).wf(),
        meter.started(now).enabled == meter.enabled,
        meter.finished(given, now).enabled == meter.enabled,
        meter.finished(given, now).total == meter.total,
        meter.enabled ==> meter.token(now) == Some(now) && meter.started(now).total == meter.total + 1,
        !meter.enabled ==> meter.token(now) is None && meter.started(now) == meter && meter.total == 0 && meter.report(
            given,
            now,
        ) is None,
{
}

/// Between frames fewer intervals are kept than a report takes.
pub proof fn a_window_never_overflows(meter: MeterModel, frame: (Instant, Instant))
    requires
        meter.wf(),
        meter.intervals.len() < REPORT_EVERY,
    ensures
        meter.started(frame.0).intervals.len() <= REPORT_EVERY,
        meter.started(frame.0).finished(meter.token(frame.0), frame.1).intervals.len() < REPORT_EVERY,
        meter.frame_report(frame) matches Some(report) ==> report.frames == REPORT_EVERY && report.p50.nanos
            <= report.p95.nanos <= report.max.nanos && report.hitches <= report.over_budget <= report.frames,
{
    if meter.frame_report(frame) is Some {
        let started = meter.started(frame.0);
        reports_are_ordered(started.intervals, started.builds.push(since(frame.1, frame.0)), 0);
    }
}

/// Windows do not overlap: where nothing is left from before, no frame reports
/// until there are as many intervals as a report takes, and the one that
/// completes them does. The first frame of all begins no interval.
pub proof fn windows_do_not_overlap(meter: MeterModel, frames: Seq<(Instant, Instant)>, frame: (Instant, Instant))
    requires
        meter.enabled,
        meter.intervals.len() == 0,
        frames.len() + (if meter.last_render is Some {
            1int
        } else {
            0
        }) <= REPORT_EVERY,
    ensures
        ({
            let before = meter.after(frames);
            let begun = frames.len() + (if meter.last_render is Some {
                1int
            } else {
                0
            });
            &&& before.enabled
            &&& before.frame_report(frame) is Some <==> begun == REPORT_EVERY
            &&& before.frame_report(frame) matches Some(report) ==> report.frames == REPORT_EVERY
            &&& begun == REPORT_EVERY ==> meter.after(frames.push(frame)).intervals.len() == 0 && meter.after(
                frames.push(frame),
            ).last_render is Some
        }),
{
    intervals_add_up(meter, frames);
    assert(frames.push(frame).drop_last() =~= frames);
}

proof fn intervals_add_up(meter: MeterModel, frames: Seq<(Instant, Instant)>)
    requires
        meter.enabled,
        meter.intervals.len() == 0,
        frames.len() + (if meter.last_render is Some {
            1int
        } else {
            0
        }) <= REPORT_EVERY,
    ensures
        ({
            let after = meter.after(frames);
            &&& after.enabled
            &&& after.last_render is Some <==> meter.last_render is Some || frames.len() > 0
            &&& after.intervals.len() == frames.len() - (if meter.last_render is Some || frames.len() == 0 {
                0int
            } else {
                1
            })
        }),
    decreases frames.len(),
{
    if frames.len() > 0 {
        intervals_add_up(meter, frames.drop_last());
    }
}

/// What is reported is measured: as many frames as there were intervals, the
/// longest of them, how many were longer than a sixtieth of a second and how
/// many longer than two, and a median that half of them do not exceed.
pub proof fn a_report_says_what_was_measured(intervals: Seq<Duration>, builds: Seq<Duration>)
    requires
        0 < intervals.len() <= usize::MAX,
    ensures
        ({
            let stats = stats_of(intervals, builds);
            let at_most = |limit: u128| |span: Duration| span.nanos <= limit;
            &&& stats.frames == intervals.len()
            &&& intervals.contains(stats.max)
            &&& intervals.contains(stats.p50)
            &&& intervals.contains(stats.p95)
            &&& forall|i: int| 0 <= i < intervals.len() ==> (#[trigger] intervals[i]).nanos <= stats.max.nanos
            &&& stats.over_budget == count(intervals, |span: Duration| span.nanos > 16_666_667)
            &&& stats.hitches == count(intervals, |span: Duration| span.nanos > 33_333_334)
            &&& 2 * count(intervals, at_most(stats.p50.nanos)) >= intervals.len()
            &&& 100 * count(intervals, at_most(stats.p95.nanos)) >= 95 * intervals.len()
        }),
{
    let ascending = sorted(intervals, shorter());
    let stats = stats_of(intervals, builds);
    sorting_keeps_items(intervals, shorter());
    crate::sorting::sorting_orders(intervals, shorter());
    let n = ascending.len() as int;
    assert forall|i: int| 0 <= i < intervals.len() implies (#[trigger] intervals[i]).nanos <= stats.max.nanos by {
        reports_are_ordered(intervals, builds, i);
    }
    crate::sorting::sorting_keeps_membership(intervals, shorter(), stats.max);
    crate::sorting::sorting_keeps_membership(intervals, shorter(), stats.p50);
    crate::sorting::sorting_keeps_membership(intervals, shorter(), stats.p95);
    assert(ascending.contains(ascending[n - 1]));
    let (a, b) = (percentile_place(ascending.len(), 50), percentile_place(ascending.len(), 95));
    assert(ascending.contains(ascending[a]));
    assert(ascending.contains(ascending[b]));
    let over = |span: Duration| span.nanos > 16_666_667;
    let twice = |span: Duration| span.nanos > 33_333_334;
    crate::sorting::sorting_keeps_counts(intervals, shorter(), over);
    crate::sorting::sorting_keeps_counts(intervals, shorter(), twice);
    crate::seqs::filter_agree(ascending, longer_than(16_666_667), over);
    crate::seqs::filter_agree(ascending, longer_than(33_333_334), twice);
    crate::seqs::filter_no_longer(ascending, over);
    crate::seqs::filter_no_longer(ascending, twice);
    let half = |span: Duration| span.nanos <= stats.p50.nanos;
    let most = |span: Duration| span.nanos <= stats.p95.nanos;
    crate::sorting::sorting_keeps_counts(intervals, shorter(), half);
    crate::sorting::sorting_keeps_counts(intervals, shorter(), most);
    up_to_a_place(ascending, a, half);
    up_to_a_place(ascending, b, most);
    crate::seqs::filter_agree(intervals, half, |span: Duration| span.nanos <= stats.p50.nanos);
    crate::seqs::filter_agree(intervals, most, |span: Duration| span.nanos <= stats.p95.nanos);
}

/// As many values as stand up to a place do not exceed the one there.
proof fn up_to_a_place(values: Seq<Duration>, at: int, wanted: spec_fn(Duration) -> bool)
    requires
        0 <= at < values.len(),
        crate::sorting::in_order(values, shorter()),
        forall|span: Duration| #[trigger] wanted(span) == (span.nanos <= values[at].nanos),
    ensures
        count(values, wanted) >= at + 1,
{
    let (low, high) = (values.take(at + 1), values.skip(at + 1));
    assert(low + high =~= values);
    Seq::filter_distributes_over_add(low, high, wanted);
    assert forall|i: int| 0 <= i < low.len() implies wanted(#[trigger] low[i]) by {
        assert(low[i] == values[i]);
        if i < at {
            assert(!shorter()(values[at], values[i]));
        }
    }
    crate::seqs::filter_all(low, wanted);
}

/// A percentile is one of the values: so many in a hundred do not exceed it, and
/// fewer than that lie below it. Without values there is none.
pub proof fn a_percentile_parts_the_values(spans: Seq<Duration>, percent: nat)
    requires
        0 < percent <= 100,
    ensures
        ({
            let value = percentile_of(sorted(spans, shorter()), percent);
            &&& spans.len() == 0 ==> value.nanos == 0
            &&& spans.len() > 0 ==> spans.contains(value)
            &&& 100 * count(spans, |span: Duration| span.nanos <= value.nanos) >= percent * spans.len()
            &&& spans.len() > 0 ==> 100 * count(spans, |span: Duration| span.nanos < value.nanos) < percent
                * spans.len()
        }),
{
    let ascending = sorted(spans, shorter());
    sorting_keeps_items(spans, shorter());
    if spans.len() == 0 {
        assert(percent * spans.len() == 0);
    } else {
        let n = ascending.len() as int;
        let p = percent as int;
        crate::sorting::sorting_orders(spans, shorter());
        assert(0 < p * n <= 100 * n) by (nonlinear_arith)
            requires
                0 < p <= 100,
                0 < n,
        ;
        let at = percentile_place(ascending.len(), percent);
        let value = ascending[at];
        assert(ascending.contains(ascending[at]));
        crate::sorting::sorting_keeps_membership(spans, shorter(), value);
        let (up_to, below) = (|span: Duration| span.nanos <= value.nanos, |span: Duration| span.nanos < value.nanos);
        crate::sorting::sorting_keeps_counts(spans, shorter(), up_to);
        crate::sorting::sorting_keeps_counts(spans, shorter(), below);
        up_to_a_place(ascending, at, up_to);
        below_a_place(ascending, at, below);
    }
}

/// Half of the builds took no longer than what is reported of them.
pub proof fn half_of_the_builds_are_as_fast(intervals: Seq<Duration>, builds: Seq<Duration>)
    requires
        builds.len() > 0,
    ensures
        ({
            let half = stats_of(intervals, builds).build_p50;
            &&& builds.contains(half)
            &&& 2 * count(builds, |span: Duration| span.nanos <= half.nanos) >= builds.len()
            &&& 2 * count(builds, |span: Duration| span.nanos < half.nanos) < builds.len()
        }),
{
    a_percentile_parts_the_values(builds, 50);
}

proof fn below_a_place(values: Seq<Duration>, at: int, wanted: spec_fn(Duration) -> bool)
    requires
        0 <= at < values.len(),
        crate::sorting::in_order(values, shorter()),
        forall|span: Duration| #[trigger] wanted(span) == (span.nanos < values[at].nanos),
    ensures
        count(values, wanted) <= at,
{
    let (low, high) = (values.take(at), values.skip(at));
    assert(low + high =~= values);
    Seq::filter_distributes_over_add(low, high, wanted);
    crate::seqs::filter_no_longer(low, wanted);
    if high.filter(wanted).len() > 0 {
        crate::seqs::filter_source(high, wanted, 0);
        let i = choose|i: int| 0 <= i < high.len() && high[i] == high.filter(wanted)[0];
        assert(wanted(high[i]));
        assert(high[i] == values[at + i]);
        if i > 0 {
            assert(!shorter()(values[at + i], values[at]));
        }
    }
}

} // verus!
