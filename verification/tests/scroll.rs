use text_edit::layout::layout_frame;
use text_edit::metrics::{pixels_to_units, FontMetrics};
use text_edit::scroll::{scroll_to_line, SCROLL_LIMIT};
use text_edit::viewport::ViewportState;

const PX: i128 = 64;

fn font(line_height_px: u32) -> FontMetrics {
    FontMetrics { line_height: line_height_px * 64, ascent: 900, descent: -300 }
}

#[test]
fn scroll_down_scenario() {
    // Offset 0, a view 200 pixels high, lines 20 pixels high, so a margin of
    // 40 pixels: line 20 spans 400 to 420 and ends below the view.
    let moved = scroll_to_line(0, 20, pixels_to_units(200), 20 * 64);
    assert_eq!(moved, (420 - 200 + 40) * PX);
    assert_eq!(moved, 260 * PX);
}

#[test]
fn scroll_down_scenario_through_the_view() {
    let mut state = ViewportState::new(640, 200);
    state.request_scroll_to(20);
    assert_eq!(state.pending_scroll(), Some(20));
    layout_frame(&mut state, &vec![], &font(20));
    assert_eq!(state.scroll_offset(), 260 * PX);
    assert_eq!(state.pending_scroll(), None);
}

#[test]
fn scrolls_up_to_one_margin_above_the_line() {
    // Line 10 starts at 200; from offset 1000 it lies above the view.
    let moved = scroll_to_line(1000 * PX, 10, pixels_to_units(200), 20 * 64);
    assert_eq!(moved, (200 - 40) * PX);
}

#[test]
fn stays_where_the_line_is_visible_between_the_margins() {
    // The view shows 100 to 300; with margins, 140 to 260. Line 8 spans 160 to 180.
    let moved = scroll_to_line(100 * PX, 8, pixels_to_units(200), 20 * 64);
    assert_eq!(moved, 100 * PX);
    // Line 7 starts exactly at the upper margin, line 12 ends exactly at the lower one.
    assert_eq!(scroll_to_line(100 * PX, 7, pixels_to_units(200), 20 * 64), 100 * PX);
    assert_eq!(scroll_to_line(100 * PX, 12, pixels_to_units(200), 20 * 64), 100 * PX);
    // One line further either way moves the view.
    assert_eq!(scroll_to_line(100 * PX, 6, pixels_to_units(200), 20 * 64), 80 * PX);
    assert_eq!(scroll_to_line(100 * PX, 13, pixels_to_units(200), 20 * 64), 120 * PX);
}

#[test]
fn never_scrolls_above_the_top() {
    assert_eq!(scroll_to_line(500 * PX, 0, pixels_to_units(200), 20 * 64), 0);
    assert_eq!(scroll_to_line(500 * PX, 1, pixels_to_units(200), 20 * 64), 0);
    assert_eq!(scroll_to_line(500 * PX, 2, pixels_to_units(200), 20 * 64), 0);
    assert_eq!(scroll_to_line(500 * PX, 3, pixels_to_units(200), 20 * 64), 20 * PX);
    assert_eq!(scroll_to_line(0, 0, 0, 0), 0);
    for target in [0u64, 1, 2, 5, 1000, u64::MAX] {
        for view in [0u32, 1, 99, 100, 101, 4000] {
            for offset in [0i128, 1, 6400, 1 << 40, SCROLL_LIMIT] {
                assert!(scroll_to_line(offset, target, pixels_to_units(view), 1440) >= 0);
            }
        }
    }
}

#[test]
fn has_no_upper_limit_of_its_own() {
    let moved = scroll_to_line(0, u64::MAX, pixels_to_units(200), u32::MAX);
    let line_bottom = (u64::MAX as i128 + 1) * u32::MAX as i128;
    assert_eq!(moved, line_bottom - 200 * PX + 2 * u32::MAX as i128);
    assert!(moved <= SCROLL_LIMIT);
}

#[test]
fn scrolling_twice_to_a_line_is_scrolling_once() {
    // The view holds at least five lines.
    for view in [113u32, 200, 1000] {
        for target in [0u64, 1, 2, 3, 20, 500] {
            for offset in [0i128, 10 * PX, 260 * PX, 10_000 * PX] {
                let once = scroll_to_line(offset, target, pixels_to_units(view), 1440);
                let twice = scroll_to_line(once, target, pixels_to_units(view), 1440);
                assert_eq!(once, twice);
            }
        }
    }
}

#[test]
fn scrolling_twice_through_the_view_is_scrolling_once() {
    let mut state = ViewportState::new(640, 300);
    state.request_scroll_to(40);
    layout_frame(&mut state, &vec![], &font(20));
    let once = state.scroll_offset();
    assert_eq!(once, (41 * 20 - 300 + 40) * PX);
    state.request_scroll_to(40);
    layout_frame(&mut state, &vec![], &font(20));
    assert_eq!(state.scroll_offset(), once);
}

#[test]
fn a_view_shorter_than_five_lines_never_settles_past_the_second_line() {
    // Lines of 20 pixels in a view of 60: the margins alone take 80.
    let once = scroll_to_line(0, 10, pixels_to_units(60), 20 * 64);
    assert_eq!(once, 200 * PX);
    let twice = scroll_to_line(once, 10, pixels_to_units(60), 20 * 64);
    assert_eq!(twice, 160 * PX);
    let thrice = scroll_to_line(twice, 10, pixels_to_units(60), 20 * 64);
    assert_eq!(thrice, 200 * PX);
    // The first two lines settle at the top all the same.
    let top = scroll_to_line(500 * PX, 1, pixels_to_units(60), 20 * 64);
    assert_eq!(top, 0);
    assert_eq!(scroll_to_line(top, 1, pixels_to_units(60), 20 * 64), 0);
}
