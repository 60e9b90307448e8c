//! Scrolling the view so that a given line is comfortably visible.
//!
//! All lengths are whole numbers of layout units (see [`crate::metrics`]).
//! The view shows the band `[offset, offset + view_height)` of the document,
//! and line `n` occupies `[n * line_height, (n + 1) * line_height)`.

use vstd::prelude::*;

verus! {

/// How many line heights are kept free between the target line and either
/// edge of the view.
pub const MARGIN_LINES: u64 = 2;

/// The largest scroll offset the engine ever holds: `2^100` layout units.
///
/// Every offset that scrolling to a line can produce lies far below it: a
/// line index fits 64 bits and a line height 32 bits.
pub const SCROLL_LIMIT: i128 = 0x10_0000_0000_0000_0000_0000_0000;

/// The margin kept above and below the target line.
pub open spec fn margin(line_height: int) -> int {
    MARGIN_LINES as int * line_height
}

/// Where the top of the target line lies in the document.
pub open spec fn line_top(target_line: int, line_height: int) -> int {
    target_line * line_height
}

/// Where the target line ends in the document.
pub open spec fn line_bottom(target_line: int, line_height: int) -> int {
    target_line * line_height + line_height
}

/// The offset the view moves to, before it is kept from going negative.
///
/// If the target line starts above the upper margin the view moves up until
/// the line sits exactly one margin below the top; otherwise, if the line ends
/// below the lower margin, the view moves down until the line sits exactly one
/// margin above the bottom; otherwise the view stays where it is.
pub open spec fn unclamped_scroll(
    offset: int,
    target_line: int,
    view_height: int,
    line_height: int,
) -> int {
    if offset + margin(line_height) > line_top(target_line, line_height) {
        line_top(target_line, line_height) - margin(line_height)
    } else if offset + view_height - margin(line_height) < line_bottom(target_line, line_height) {
        line_bottom(target_line, line_height) - view_height + margin(line_height)
    } else {
        offset
    }
}

/// The scroll offset after scrolling to `target_line`: the offset that
/// [`unclamped_scroll`] picks, or zero where that would be negative. There is
/// no upper bound: how long the document is, only the editing core knows.
pub open spec fn scroll_target(
    offset: int,
    target_line: int,
    view_height: int,
    line_height: int,
) -> int {
    let moved = unclamped_scroll(offset, target_line, view_height, line_height);
    if moved < 0 {
        0
    } else {
        moved
    }
}

/// Computes the scroll offset that brings `target_line` into view.
pub fn scroll_to_line(offset: i128, target_line: u64, view_height: u64, line_height: u32) -> (moved:
    i128)
    requires
        0 <= offset <= SCROLL_LIMIT,
    ensures
        moved == scroll_target(offset as int, target_line as int, view_height as int, line_height as int),
        0 <= moved <= SCROLL_LIMIT,
{
    let height: i128 = line_height as i128;
    let margin: i128 = 2 * height;
    assert(0 <= target_line as int * line_height as int <= 0xffff_ffff_ffff_ffff * 0xffff_ffff)
        by (nonlinear_arith)
        requires
            0 <= target_line <= 0xffff_ffff_ffff_ffff,
            0 <= line_height <= 0xffff_ffff,
    ;
    let top: i128 = target_line as i128 * height;
    let bottom: i128 = top + height;
    let view: i128 = view_height as i128;
    let moved: i128 = if offset + margin > top {
        top - margin
    } else if offset + view - margin < bottom {
        bottom - view + margin
    } else {
        offset
    };
    if moved < 0 {
        0
    } else {
        moved
    }
}

/// Scrolling to a line never leaves the view above the top of the document.
pub proof fn lemma_scroll_never_negative(
    offset: int,
    target_line: int,
    view_height: int,
    line_height: int,
)
    ensures
        scroll_target(offset, target_line, view_height, line_height) >= 0,
{
}

/// Scrolling to the same line twice moves the view no further than scrolling
/// to it once, provided the view is tall enough to hold the line between its
/// two margins (five line heights), or the line is one of the first two of
/// the document.
pub proof fn lemma_scroll_idempotent(
    offset: int,
    target_line: int,
    view_height: int,
    line_height: int,
)
    requires
        0 <= offset,
        0 <= target_line,
        0 <= view_height,
        0 <= line_height,
        view_height >= line_height + 2 * margin(line_height) || target_line < MARGIN_LINES,
    ensures
        ({
            let once = scroll_target(offset, target_line, view_height, line_height);
            scroll_target(once, target_line, view_height, line_height) == once
        }),
{
    assert(margin(line_height) == 2 * line_height);
    if target_line < 2 {
        assert(target_line == 0 || target_line == 1);
        assert(target_line * line_height == 0 || target_line * line_height == line_height)
            by (nonlinear_arith)
            requires
                target_line == 0 || target_line == 1,
        ;
    } else {
        assert(target_line * line_height >= 2 * line_height) by (nonlinear_arith)
            requires
                target_line >= 2,
                line_height >= 0,
        ;
    }
}

/// In a view too short to hold a line between its two margins, scrolling
/// twice to a line past the first two never settles: the second application
/// moves the view again.
pub proof fn lemma_scroll_unsettled_in_short_view(
    offset: int,
    target_line: int,
    view_height: int,
    line_height: int,
)
    requires
        0 <= offset,
        MARGIN_LINES <= target_line,
        0 <= view_height < line_height + 2 * margin(line_height),
    ensures
        ({
            let once = scroll_target(offset, target_line, view_height, line_height);
            scroll_target(once, target_line, view_height, line_height) != once
        }),
{
    assert(margin(line_height) == 2 * line_height);
    assert(target_line * line_height >= 2 * line_height) by (nonlinear_arith)
        requires
            target_line >= 2,
            line_height >= 0,
    ;
}

} // verus!
