use dry_core::trace::{TraceError, WindowLinks};

#[test]
fn touching_segments_widens_the_ranges() {
    let mut w = WindowLinks::empty();
    w.touch_segment(5, Some(40));
    assert_eq!(w.segment_start, Some(5));
    assert_eq!(w.segment_end, Some(6));
    assert_eq!(w.source_line_start, Some(40));
    assert_eq!(w.source_line_end, Some(40));
    w.touch_segment(3, None);
    w.touch_segment(9, Some(12));
    assert_eq!(w.segment_start, Some(3));
    assert_eq!(w.segment_end, Some(10));
    assert_eq!(w.source_line_start, Some(12));
    assert_eq!(w.source_line_end, Some(40));
}

#[test]
fn a_segment_without_a_line_leaves_the_lines_alone() {
    let mut w = WindowLinks::empty();
    w.touch_segment(0, None);
    assert_eq!(w.segment_start, Some(0));
    assert_eq!(w.segment_end, Some(1));
    assert_eq!(w.source_line_start, None);
    assert_eq!(w.source_line_end, None);
}

#[test]
fn a_trace_error_displays_its_message() {
    assert_eq!(TraceError::new("window must be positive").display_text(), "window must be positive");
}
