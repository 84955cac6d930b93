use periscope::clock::{Duration, Instant, SystemTime};
use periscope::filter::FilterSpec;
use periscope::logs::{LogBuffer, LogOrder};
use periscope::sessions::{LogLine, LogSource, LogSourceState};
use periscope::times::{parse_time, TimeError};
use std::sync::Arc;

fn now() -> Instant {
    Instant { nanos: 1_000_000_000_000 }
}

fn line(source: &str, text: &str) -> LogLine {
    LogLine {
        source: LogSource::new(source, "app"),
        timestamp: None,
        text: String::from(text),
    }
}

fn at(seconds: i64) -> SystemTime {
    SystemTime::at(seconds)
}

fn texts(buffer: &LogBuffer) -> Vec<String> {
    buffer.visible().iter().map(|line| line.text.to_string()).collect()
}

fn filter(pattern: &str) -> FilterSpec {
    FilterSpec {
        pattern: pattern.to_owned(),
        ..FilterSpec::default()
    }
}

#[test]
fn a_line_keeps_its_identity_while_the_ring_evicts_underneath_it() {
    // The display index of a line moves every time the ring drops one from
    // the front. A paused view that remembers an index is looking at
    // something different a moment later — which is exactly what a reader
    // paused on a busy stream saw: "Paused", and 6.6 million lines dropped
    // out from under them.
    let mut buffer = LogBuffer::new(4);
    buffer.extend(&vec![line("api", "one"), line("api", "two")]);

    let watching = buffer.sequence_at(1).expect("a second line");
    assert_eq!(buffer.index_of(watching), Some(1));

    // Two more: still held, but everything has shifted down.
    buffer.extend(&vec![line("api", "three"), line("api", "four")]);
    assert_eq!(buffer.index_of(watching), Some(1));

    // Two more evicts the front. The line is still there, at a new index.
    buffer.extend(&vec![line("api", "five"), line("api", "six")]);
    assert_eq!(
        buffer.index_of(watching),
        None,
        "the watched line was evicted and index_of must say so"
    );

    // A line that survived reports where it is now, not where it was.
    let survivor = buffer.sequence_at(0).expect("a first line");
    assert_eq!(buffer.index_of(survivor), Some(0));
    buffer.extend(&vec![line("api", "seven")]);
    assert_eq!(buffer.index_of(survivor), None, "that one has now gone too");
}

#[test]
fn the_visible_snapshot_is_rebuilt_only_when_the_lines_move() {
    // The default buffer holds 100,000 lines. Rebuilding this list per
    // frame was an 800KB allocation and a hundred thousand refcount bumps,
    // sixty times a second, for as long as a log pane was open.
    let mut buffer = LogBuffer::new(10);
    buffer.extend(&vec![line("api", "one"), line("api", "two")]);

    let first = buffer.visible_lines();
    assert_eq!(first.len(), 2);
    // Asking again with nothing changed hands back the same allocation.
    assert!(Arc::ptr_eq(&first, &buffer.visible_lines()));

    // A new line moves it.
    buffer.extend(&vec![line("api", "three")]);
    let grown = buffer.visible_lines();
    assert!(!Arc::ptr_eq(&first, &grown));
    assert_eq!(grown.len(), 3);

    // So does a filter.
    buffer.set_filter(filter("two"));
    assert_eq!(buffer.visible_lines().len(), 1);

    // And so does the order, which changes the list without changing the set.
    buffer.set_filter(FilterSpec::default());
    let arrival = buffer.visible_lines();
    buffer.set_order(LogOrder::Timestamp);
    assert!(!Arc::ptr_eq(&arrival, &buffer.visible_lines()));
}

#[test]
fn lines_are_visible_in_the_order_they_arrived() {
    let mut buffer = LogBuffer::default();
    buffer.extend(&vec![line("a", "first"), line("b", "second")]);

    assert_eq!(texts(&buffer), ["first", "second"]);
    assert_eq!(buffer.len(), 2);
    assert_eq!(buffer.dropped(), 0);
}

#[test]
fn the_ring_drops_the_oldest_lines_and_counts_them() {
    let mut buffer = LogBuffer::new(3);
    for index in 0..10 {
        buffer.extend(&vec![line("a", &format!("line-{index}"))]);
    }

    assert_eq!(buffer.len(), 3);
    assert_eq!(texts(&buffer), ["line-7", "line-8", "line-9"]);
    // Silently discarding text would be worse than saying so.
    assert_eq!(buffer.dropped(), 7);
}

#[test]
fn a_substring_filter_narrows_without_touching_the_buffer() {
    let mut buffer = LogBuffer::default();
    buffer.extend(&vec![
        line("a", "GET /health 200"),
        line("a", "GET /users 500"),
        line("b", "connected"),
    ]);

    assert!(buffer.set_filter(filter("500")));
    assert_eq!(texts(&buffer), ["GET /users 500"]);
    // The lines are still held: clearing the filter brings them back
    // without re-reading anything from the cluster.
    assert_eq!(buffer.len(), 3);

    assert!(buffer.set_filter(FilterSpec::default()));
    assert_eq!(buffer.visible_len(), 3);
}

#[test]
fn filtering_is_case_insensitive_until_told_otherwise() {
    let mut buffer = LogBuffer::default();
    buffer.extend(&vec![line("a", "Error: nope"), line("a", "all good")]);

    buffer.set_filter(filter("error"));
    assert_eq!(texts(&buffer), ["Error: nope"]);

    buffer.set_filter(FilterSpec {
        pattern: "error".to_owned(),
        case_sensitive: true,
        ..FilterSpec::default()
    });
    assert!(texts(&buffer).is_empty());
}

#[test]
fn a_regex_filter_matches_patterns() {
    let mut buffer = LogBuffer::default();
    buffer.extend(&vec![
        line("a", "status=200"),
        line("a", "status=404"),
        line("a", "status=503"),
    ]);

    buffer.set_filter(FilterSpec {
        pattern: r"status=5\d\d".to_owned(),
        regex: true,
        ..FilterSpec::default()
    });
    assert_eq!(texts(&buffer), ["status=503"]);
}

#[test]
fn an_invalid_regex_says_why_rather_than_emptying_the_view_silently() {
    let mut buffer = LogBuffer::default();
    buffer.extend(&vec![line("a", "anything")]);

    buffer.set_filter(FilterSpec {
        pattern: "[unclosed".to_owned(),
        regex: true,
        ..FilterSpec::default()
    });

    assert!(buffer.visible_len() == 0);
    assert!(buffer.filter_error().is_some());
}

#[test]
fn new_lines_are_filtered_as_they_arrive() {
    let mut buffer = LogBuffer::default();
    buffer.set_filter(filter("error"));

    buffer.extend(&vec![line("a", "fine"), line("a", "an error occurred")]);
    assert_eq!(texts(&buffer), ["an error occurred"]);
}

#[test]
fn eviction_removes_lines_from_the_filtered_view_too() {
    let mut buffer = LogBuffer::new(2);
    buffer.set_filter(filter("keep"));

    buffer.extend(&vec![
        line("a", "keep 1"),
        line("a", "keep 2"),
        line("a", "keep 3"),
    ]);

    // The ring holds two; the visible set cannot claim three.
    assert_eq!(buffer.len(), 2);
    assert_eq!(texts(&buffer), ["keep 2", "keep 3"]);
}

#[test]
fn seeking_finds_the_first_line_at_or_after_a_time() {
    let mut buffer = LogBuffer::default();
    for (index, seconds) in [10, 20, 30].into_iter().enumerate() {
        buffer.extend(&vec![LogLine {
            source: LogSource::new("a", "app"),
            timestamp: Some(at(seconds)),
            text: format!("line-{index}"),
        }]);
    }

    assert_eq!(buffer.seek(at(0)), Some(0));
    assert_eq!(buffer.seek(at(20)), Some(1));
    assert_eq!(buffer.seek(at(25)), Some(2));
    assert_eq!(buffer.seek(at(99)), None);
}

fn stamped(source: &str, seconds: Option<i64>, text: &str) -> LogLine {
    LogLine {
        source: LogSource::new(source, "app"),
        timestamp: seconds.map(at),
        text: String::from(text),
    }
}

#[test]
fn ordering_by_timestamp_interleaves_two_backlogs() {
    let mut buffer = LogBuffer::default();
    // What a merged tail with history actually looks like: one pod's
    // backlog, then the other's, then the live streams.
    buffer.extend(&vec![
        stamped("a", Some(10), "a-first"),
        stamped("a", Some(30), "a-second"),
        stamped("b", Some(20), "b-first"),
        stamped("b", Some(40), "b-second"),
    ]);
    assert_eq!(
        texts(&buffer),
        ["a-first", "a-second", "b-first", "b-second"]
    );

    assert!(buffer.set_order(LogOrder::Timestamp));
    assert_eq!(
        texts(&buffer),
        ["a-first", "b-first", "a-second", "b-second"]
    );
    assert_eq!(buffer.order(), LogOrder::Timestamp);

    // And back, without re-reading anything.
    assert!(buffer.set_order(LogOrder::Arrival));
    assert_eq!(
        texts(&buffer),
        ["a-first", "a-second", "b-first", "b-second"]
    );
}

#[test]
fn lines_with_no_timestamp_are_listed_last_and_counted() {
    let mut buffer = LogBuffer::default();
    buffer.extend(&vec![
        stamped("a", None, "partial one"),
        stamped("a", Some(30), "later"),
        stamped("a", None, "partial two"),
        stamped("a", Some(10), "earlier"),
    ]);

    buffer.set_order(LogOrder::Timestamp);
    assert_eq!(
        texts(&buffer),
        ["earlier", "later", "partial one", "partial two"]
    );
    // The count is what lets the view say where they went.
    assert_eq!(buffer.untimestamped(), 2);
}

#[test]
fn arriving_lines_are_placed_in_the_sorted_order_too() {
    let mut buffer = LogBuffer::default();
    buffer.extend(&vec![stamped("a", Some(30), "late")]);
    buffer.set_order(LogOrder::Timestamp);

    buffer.extend(&vec![stamped("b", Some(10), "early")]);

    assert_eq!(texts(&buffer), ["early", "late"]);
    assert_eq!(buffer.visible_len(), 2);
}

#[test]
fn a_filter_and_an_export_follow_the_sorted_order() {
    let mut buffer = LogBuffer::default();
    buffer.extend(&vec![
        stamped("a", Some(30), "keep late"),
        stamped("a", Some(20), "drop me"),
        stamped("b", Some(10), "keep early"),
    ]);
    buffer.set_order(LogOrder::Timestamp);
    buffer.set_filter(filter("keep"));

    assert_eq!(texts(&buffer), ["keep early", "keep late"]);
    assert_eq!(buffer.to_text(), "b/app keep early\na/app keep late\n");
}

#[test]
fn seeking_finds_a_line_by_its_place_in_the_sorted_order() {
    let mut buffer = LogBuffer::default();
    buffer.extend(&vec![
        stamped("a", Some(10), "a-first"),
        stamped("a", Some(30), "a-second"),
        stamped("b", Some(20), "b-first"),
    ]);
    buffer.set_order(LogOrder::Timestamp);

    // Index 1 in the sorted view is b-first; in arrival order it is
    // a-second, and jumping to the wrong one is the whole bug this guards.
    assert_eq!(buffer.seek(at(20)), Some(1));
    assert_eq!(
        buffer.visible_line(1).map(|line| line.text.to_string()),
        Some("b-first".to_owned())
    );
}

#[test]
fn eviction_does_not_leave_stale_entries_in_the_sorted_order() {
    let mut buffer = LogBuffer::new(2);
    buffer.set_order(LogOrder::Timestamp);
    for seconds in [10, 20, 30, 40] {
        buffer.extend(&vec![stamped("a", Some(seconds), &format!("line-{seconds}"))]);
    }

    assert_eq!(buffer.visible_len(), 2);
    assert_eq!(texts(&buffer), ["line-30", "line-40"]);
}

#[test]
fn a_relative_time_counts_back_from_now() {
    let now = at(10_000);
    assert_eq!(parse_time("-5m", now), Ok(at(9_700)));
    assert_eq!(parse_time("-30s", now), Ok(at(9_970)));
    assert_eq!(parse_time("-2h", now), Ok(at(2_800)));
    // Surrounding spaces are what a paste leaves behind, not an error.
    assert_eq!(parse_time(" -1d ", at(200_000)), Ok(at(113_600)));
}

#[test]
fn a_wall_clock_time_lands_on_the_same_utc_day() {
    // 1970-01-02T03:04:05Z: a day and change past the epoch.
    let now = at(86_400 + 3 * 3_600 + 4 * 60 + 5);
    assert_eq!(
        parse_time("14:32", now),
        Ok(at(86_400 + 14 * 3_600 + 32 * 60))
    );
    assert_eq!(
        parse_time("14:32:10", now),
        Ok(at(86_400 + 14 * 3_600 + 32 * 60 + 10))
    );
    // Midnight is a time, not an absence of one.
    assert_eq!(parse_time("00:00", now), Ok(at(86_400)));
}

#[test]
fn an_rfc3339_stamp_is_read_as_a_log_line_would_carry_it() {
    let now = at(0);
    assert_eq!(
        parse_time("2026-08-18T10:00:00.123456789Z", now),
        Ok(at(1_787_047_200))
    );
    // A space for the `T`, because that is how log files write it.
    assert_eq!(
        parse_time("2026-08-18 10:00:00", now),
        Ok(at(1_787_047_200))
    );
    // An offset moves it, in the direction that makes 11:00+01:00 the same
    // instant as 10:00Z.
    assert_eq!(
        parse_time("2026-08-18T11:00:00+01:00", now),
        Ok(at(1_787_047_200))
    );
    assert_eq!(
        parse_time("2026-08-18T09:00:00-01:00", now),
        Ok(at(1_787_047_200))
    );
}

#[test]
fn nonsense_in_the_time_field_is_reported_rather_than_guessed_at() {
    let now = at(10_000);
    assert_eq!(parse_time("   ", now), Err(TimeError::Empty));
    assert_eq!(parse_time("soon", now), Err(TimeError::Unrecognised));
    assert_eq!(parse_time("25:00", now), Err(TimeError::Unrecognised));
    assert_eq!(parse_time("14:60", now), Err(TimeError::Unrecognised));
    assert_eq!(parse_time("-5", now), Err(TimeError::Unrecognised));
    assert_eq!(parse_time("-5y", now), Err(TimeError::Unrecognised));
    // A multi-byte last character must be rejected, not split through.
    assert_eq!(parse_time("-5€", now), Err(TimeError::Unrecognised));
    assert_eq!(
        parse_time("2026-02-30T00:00:00Z", now),
        Err(TimeError::Unrecognised)
    );
    assert_eq!(
        parse_time("2026-13-01T00:00:00Z", now),
        Err(TimeError::Unrecognised)
    );
    // Before the epoch there are no log lines, and saying so beats
    // wrapping round to some enormous time.
    assert_eq!(parse_time("-1d", at(60)), Err(TimeError::OutOfRange));
    assert_eq!(
        parse_time("1969-12-31T00:00:00Z", now),
        Err(TimeError::OutOfRange)
    );
}

#[test]
fn a_leap_day_is_a_day_and_the_next_year_does_not_have_one() {
    let now = at(0);
    assert!(parse_time("2028-02-29T00:00:00Z", now).is_ok());
    assert_eq!(
        parse_time("2029-02-29T00:00:00Z", now),
        Err(TimeError::Unrecognised)
    );
}

#[test]
fn sources_are_tracked_and_counted() {
    let mut buffer = LogBuffer::default();
    buffer.source_changed(LogSource::new("api-1", "api"), LogSourceState::Streaming);
    buffer.source_changed(LogSource::new("api-0", "api"), LogSourceState::Streaming);
    assert_eq!(buffer.streaming(), 2);

    // Sorted, so the legend does not reshuffle as pods attach.
    assert_eq!(&*buffer.sources()[0].0.pod, "api-0");

    buffer.source_changed(LogSource::new("api-0", "api"), LogSourceState::Ended);
    assert_eq!(buffer.streaming(), 1);
    assert_eq!(buffer.sources().len(), 2);
}

#[test]
fn exported_text_names_the_source_of_every_line() {
    let mut buffer = LogBuffer::default();
    buffer.extend(&vec![line("api-0", "hello"), line("api-1", "world")]);

    assert_eq!(buffer.to_text(), "api-0/app hello\napi-1/app world\n");
}

#[test]
fn export_follows_the_filter() {
    let mut buffer = LogBuffer::default();
    buffer.extend(&vec![line("api-0", "hello"), line("api-1", "world")]);
    buffer.set_filter(filter("world"));

    // "Export the visible buffer" means what is on screen, not everything.
    assert_eq!(buffer.to_text(), "api-1/app world\n");
}

#[test]
fn filtering_half_a_million_lines_stays_inside_the_budget() {
    let mut buffer = LogBuffer::new(500_000);
    let batch: Vec<LogLine> = (0..500_000)
        .map(|index| {
            line(
                "api-0",
                &format!("2026-08-18 GET /users/{index} 200 in {index}ms"),
            )
        })
        .collect();
    buffer.extend(&batch);
    assert_eq!(buffer.len(), 500_000);

    let started = std::time::Instant::now();
    buffer.set_filter(filter("/users/499999"));
    let substring = started.elapsed();
    assert_eq!(buffer.visible_len(), 1);

    let started = std::time::Instant::now();
    buffer.set_filter(FilterSpec {
        pattern: r"in \d{6}ms".to_owned(),
        regex: true,
        ..FilterSpec::default()
    });
    let regex = started.elapsed();

    let budget = std::time::Duration::from_millis(5_000);

    assert!(substring < budget, "substring filter took {substring:?}");
    assert!(regex < budget, "regex filter took {regex:?}");
}

#[test]
fn a_case_insensitive_search_handles_non_ascii_without_panicking() {
    let mut buffer = LogBuffer::default();
    buffer.extend(&vec![line("a", "STRASSE Ärger"), line("a", "nothing")]);

    buffer.set_filter(filter("ärger"));
    assert_eq!(texts(&buffer), ["STRASSE Ärger"]);
}
