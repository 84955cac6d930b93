use periscope::clock::SystemTime;
use periscope::logview::{format_time, source_colour, wrap_window, WRAP_LIMIT};
use periscope::sessions::LogSource;

#[test]
fn a_source_keeps_its_colour() {
    let source = LogSource::new("api-0", "api");
    assert_eq!(source_colour(&source), source_colour(&source));
    // The container does not change the colour: a pod is one colour, even
    // when two of its containers are being read.
    assert_eq!(
        source_colour(&source),
        source_colour(&LogSource::new("api-0", "sidecar"))
    );
}

#[test]
fn different_pods_usually_get_different_colours() {
    let colours: std::collections::HashSet<_> = (0..8)
        .map(|index| {
            format!(
                "{:?}",
                source_colour(&LogSource::new(&format!("api-{index}"), "api"))
            )
        })
        .collect();
    // Not a guarantee — it is a hash — but a run of eight pods collapsing
    // to one colour would make a merged stream unreadable.
    assert!(colours.len() >= 4, "{colours:?}");
}

#[test]
fn the_wrapped_window_holds_the_newest_lines_by_default() {
    // A tail is read from the bottom, so an uncapped buffer shows its end.
    assert_eq!(wrap_window(10_000, None), 9_500..10_000);
    // Short buffers are shown whole rather than padded to the cap.
    assert_eq!(wrap_window(12, None), 0..12);
    assert_eq!(wrap_window(0, None), 0..0);
}

#[test]
fn a_jump_moves_the_wrapped_window_to_the_line_it_landed_on() {
    assert_eq!(wrap_window(10_000, Some(2_000)), 2_000..2_500);
    // Near the end there is less than a windowful left, and asking past the
    // end must not produce a range that no line exists in.
    assert_eq!(wrap_window(10_000, Some(9_900)), 9_900..10_000);
    assert_eq!(wrap_window(10, Some(99)), 9..10);
}

#[test]
fn the_wrapped_window_can_never_be_the_whole_buffer() {
    // The point of the cap: 100,000 elements would be built every frame.
    for anchor in [None, Some(0), Some(50_000), Some(99_999)] {
        assert!(wrap_window(100_000, anchor).len() <= WRAP_LIMIT);
    }
}

#[test]
fn timestamps_render_as_wall_clock_time() {
    let midnight = SystemTime::at(86_400);
    assert_eq!(format_time(midnight), "00:00:00");
    assert_eq!(
        format_time(SystemTime::at(86_400 + 3_661)),
        "01:01:01"
    );
}
