//! Placing the glyphs and the cursors of the lines that the view holds.
//!
//! The glyphs of a line all sit on its baseline. The pen starts at the left
//! edge, `x = 0`; each glyph is placed at the pen, moved by its kerning unless
//! it is the first of the line, and moves the pen to its own position plus its
//! advance. A cursor is a rectangle one pixel wide and one line high at the
//! left edge of the glyph in its column, or, in the column after the last
//! glyph, where the pen ends.

use crate::metrics::{FontMetrics, GlyphMetrics, CURSOR_WIDTH, TOP_INSET};
use crate::update::{LineModel, LineView, Selection};
use crate::viewport::{settled, ViewportModel, ViewportState};
use vstd::prelude::*;

verus! {

/// A glyph at its place in the view.
#[derive(Clone, Copy, Debug, PartialEq, Eq)]
pub struct PositionedGlyph {
    /// The font's identifier of the glyph.
    pub id: u32,
    /// The left edge of the glyph.
    pub x: i128,
    /// The baseline of the glyph.
    pub y: i128,
}

/// The rectangle of a cursor.
#[derive(Clone, Copy, Debug, PartialEq, Eq)]
pub struct CursorRect {
    /// The column of the cursor.
    pub column: u64,
    /// The left edge.
    pub x: i128,
    /// The top edge.
    pub y: i128,
    pub width: i128,
    pub height: i128,
}

/// One line laid out.
#[derive(Clone, Debug, PartialEq, Eq)]
pub struct LineLayout {
    /// The glyphs of the line, left to right: the glyph run.
    pub glyphs: Vec<PositionedGlyph>,
    /// The cursors of the line, by increasing column.
    pub cursor_rects: Vec<CursorRect>,
    /// The selected ranges of the line, as the view holds them. Their columns
    /// index `glyphs`.
    pub selections: Vec<Selection>,
}

/// What a [`LineLayout`] holds, as mathematical values.
pub struct LineLayoutModel {
    pub glyphs: Seq<PositionedGlyph>,
    pub cursor_rects: Seq<CursorRect>,
    pub selections: Seq<(u64, u64)>,
}

impl View for LineLayout {
    type V = LineLayoutModel;

    open spec fn view(&self) -> LineLayoutModel {
        LineLayoutModel {
            glyphs: self.glyphs@,
            cursor_rects: self.cursor_rects@,
            selections: Seq::new(self.selections@.len(), |i: int| self.selections@[i]@),
        }
    }
}

/// The lines of a frame laid out, top to bottom.
#[derive(Clone, Debug, PartialEq, Eq)]
pub struct LayoutResult {
    pub lines: Vec<LineLayout>,
}

/// The kerning that applies to the glyph at `index`: none for the first.
pub open spec fn kerning_at(glyphs: Seq<GlyphMetrics>, index: int) -> int {
    if index <= 0 {
        0
    } else {
        glyphs[index].kerning as int
    }
}

/// Where the pen is after the first `count` glyphs of a line.
pub open spec fn pen_after(glyphs: Seq<GlyphMetrics>, count: int) -> int
    decreases count,
{
    if count <= 0 {
        0
    } else {
        pen_after(glyphs, count - 1) + kerning_at(glyphs, count - 1) + glyphs[count - 1].advance
    }
}

/// The left edge of the glyph at `index`.
pub open spec fn glyph_x(glyphs: Seq<GlyphMetrics>, index: int) -> int {
    pen_after(glyphs, index) + kerning_at(glyphs, index)
}

/// Where the line ends: the left edge of the last glyph plus its advance, or
/// the left edge of the view if the line has no glyph.
pub open spec fn line_end_x(glyphs: Seq<GlyphMetrics>) -> int {
    pen_after(glyphs, glyphs.len() as int)
}

/// The left edge of a cursor in `column`, for columns up to the glyph count.
pub open spec fn cursor_x(glyphs: Seq<GlyphMetrics>, column: int) -> int {
    if column < glyphs.len() {
        glyph_x(glyphs, column)
    } else {
        line_end_x(glyphs)
    }
}

/// The baseline of the line at `row` among the lines held: one line height
/// below the top of that line in the document, as seen from the scrolled
/// view, less the inset at the top.
pub open spec fn baseline_of(first_line: int, row: int, line_height: int, scroll_offset: int) -> int {
    (first_line + row + 1) * line_height - scroll_offset - TOP_INSET as int
}

/// The top edge of the cursors of a line: the middle between ascent and
/// descent, half a line height up. Halves are rounded down to a whole unit.
pub open spec fn cursor_top(baseline: int, font: FontMetrics) -> int {
    let band = font.ascent as int + font.descent as int;
    baseline - band + band / 2 - font.line_height as int / 2
}

/// The columns below `limit` that hold a cursor, in increasing order, each
/// once.
pub open spec fn columns_below(cursors: Seq<u64>, limit: nat) -> Seq<u64>
    decreases limit,
{
    if limit == 0 {
        Seq::empty()
    } else {
        let rest = columns_below(cursors, (limit - 1) as nat);
        if cursors.contains((limit - 1) as u64) {
            rest.push((limit - 1) as u64)
        } else {
            rest
        }
    }
}

/// The columns of a line of `glyph_count` glyphs whose cursors are shown:
/// those of its glyphs and the one after the last.
pub open spec fn cursor_columns(cursors: Seq<u64>, glyph_count: nat) -> Seq<u64> {
    columns_below(cursors, glyph_count + 1)
}

/// The rectangle of the cursor in `column`.
pub open spec fn is_cursor_rect(
    rect: CursorRect,
    column: u64,
    glyphs: Seq<GlyphMetrics>,
    baseline: int,
    font: FontMetrics,
) -> bool {
    &&& rect.column == column
    &&& rect.x == cursor_x(glyphs, column as int)
    &&& rect.y == cursor_top(baseline, font)
    &&& rect.width == CURSOR_WIDTH
    &&& rect.height == font.line_height
}

/// Whether `layout` is the layout of a line with the given glyphs on the
/// given baseline.
///
/// The glyph run holds one glyph for each of `glyphs`, in their order. There
/// is one rectangle for each of [`cursor_columns`], in their order. The
/// selections are those of the line.
pub open spec fn is_line_layout(
    layout: LineLayoutModel,
    glyphs: Seq<GlyphMetrics>,
    line: LineModel,
    baseline: int,
    font: FontMetrics,
) -> bool {
    let columns = cursor_columns(line.cursors, glyphs.len());
    &&& layout.glyphs.len() == glyphs.len()
    &&& forall|i: int|
        0 <= i < glyphs.len() ==> {
            &&& (#[trigger] layout.glyphs[i]).id == glyphs[i].id
            &&& layout.glyphs[i].x == glyph_x(glyphs, i)
            &&& layout.glyphs[i].y == baseline
        }
    &&& layout.cursor_rects.len() == columns.len()
    &&& forall|j: int|
        0 <= j < columns.len() ==> is_cursor_rect(
            #[trigger] layout.cursor_rects[j],
            columns[j],
            glyphs,
            baseline,
            font,
        )
    &&& layout.selections == line.selections
}

/// There is only one layout of a line: [`is_line_layout`] leaves nothing
/// open.
pub proof fn lemma_line_layout_unique(
    first: LineLayoutModel,
    second: LineLayoutModel,
    glyphs: Seq<GlyphMetrics>,
    line: LineModel,
    baseline: int,
    font: FontMetrics,
)
    requires
        is_line_layout(first, glyphs, line, baseline, font),
        is_line_layout(second, glyphs, line, baseline, font),
    ensures
        first == second,
{
    assert forall|i: int| 0 <= i < glyphs.len() implies first.glyphs[i] == second.glyphs[i] by {
        assert(first.glyphs[i].x == second.glyphs[i].x);
    }
    assert(first.glyphs =~= second.glyphs);
    let columns = cursor_columns(line.cursors, glyphs.len());
    assert forall|j: int| 0 <= j < columns.len() implies first.cursor_rects[j]
        == second.cursor_rects[j] by {
        assert(is_cursor_rect(first.cursor_rects[j], columns[j], glyphs, baseline, font));
        assert(is_cursor_rect(second.cursor_rects[j], columns[j], glyphs, baseline, font));
    }
    assert(first.cursor_rects =~= second.cursor_rects);
}

/// What [`columns_below`] holds: exactly the columns below the limit that
/// hold a cursor, in strictly increasing order.
pub proof fn lemma_columns_below(cursors: Seq<u64>, limit: nat)
    requires
        limit <= u64::MAX,
    ensures
        forall|j: int|
            0 <= j < columns_below(cursors, limit).len() ==> {
                &&& (#[trigger] columns_below(cursors, limit)[j]) < limit
                &&& cursors.contains(columns_below(cursors, limit)[j])
            },
        forall|j: int, k: int|
            0 <= j < k < columns_below(cursors, limit).len() ==> columns_below(cursors, limit)[j]
                < columns_below(cursors, limit)[k],
        forall|column: u64|
            column < limit && cursors.contains(column) ==> columns_below(cursors, limit).contains(
                column,
            ),
    decreases limit,
{
    if limit > 0 {
        let rest = columns_below(cursors, (limit - 1) as nat);
        let all = columns_below(cursors, limit);
        lemma_columns_below(cursors, (limit - 1) as nat);
        assert forall|column: u64| column < limit && cursors.contains(column) implies all.contains(
            column,
        ) by {
            if column < limit - 1 {
                let j = choose|j: int| 0 <= j < rest.len() && rest[j] == column;
                assert(all[j] == column);
            } else {
                assert(all[all.len() - 1] == column);
            }
        }
    }
}

/// The largest distance from the top of the view at which a baseline may
/// lie for [`layout_line`]: `2^101` layout units, more than any baseline of a
/// [`ViewportState`].
pub const BASELINE_LIMIT: i128 = 0x20_0000_0000_0000_0000_0000_0000;

/// Half of a length, rounded down.
fn half(length: i128) -> (halved: i128)
    requires
        -BASELINE_LIMIT <= length <= BASELINE_LIMIT,
    ensures
        halved == length as int / 2,
{
    if length >= 0 {
        length / 2
    } else {
        -((1 - length) / 2)
    }
}

/// Whether a cursor stands in `column`.
fn holds_cursor(cursors: &Vec<u64>, column: u64) -> (held: bool)
    ensures
        held == cursors@.contains(column),
{
    let mut i: usize = 0;
    while i < cursors.len()
        invariant
            i <= cursors.len(),
            forall|k: int| 0 <= k < i ==> cursors@[k] != column,
        decreases cursors.len() - i,
    {
        if cursors[i] == column {
            return true;
        }
        i += 1;
    }
    false
}

/// Where the pen can be after `count` glyphs: each moves it by less than
/// `2^32` units either way.
proof fn lemma_pen_bounds(glyphs: Seq<GlyphMetrics>, count: int)
    requires
        0 <= count <= glyphs.len(),
    ensures
        -count * 0x1_0000_0000 <= pen_after(glyphs, count) <= count * 0x1_0000_0000,
    decreases count,
{
    if count > 0 {
        lemma_pen_bounds(glyphs, count - 1);
    }
}

/// Lays out one line on its baseline.
pub fn layout_line(
    glyphs: &Vec<GlyphMetrics>,
    line: &LineView,
    baseline: i128,
    font: &FontMetrics,
) -> (layout: LineLayout)
    requires
        -BASELINE_LIMIT <= baseline <= BASELINE_LIMIT,
    ensures
        is_line_layout(layout@, glyphs@, line@, baseline as int, *font),
{
    let band: i128 = font.ascent as i128 + font.descent as i128;
    let top: i128 = baseline - band + half(band) - half(font.line_height as i128);
    let height: i128 = font.line_height as i128;
    let mut placed: Vec<PositionedGlyph> = Vec::new();
    let mut rects: Vec<CursorRect> = Vec::new();
    let mut pen: i128 = 0;
    let mut i: usize = 0;
    while i < glyphs.len()
        invariant
            i <= glyphs.len(),
            pen == pen_after(glyphs@, i as int),
            top == cursor_top(baseline as int, *font),
            height == font.line_height,
            placed@.len() == i,
            forall|k: int|
                0 <= k < i ==> {
                    &&& (#[trigger] placed@[k]).id == glyphs@[k].id
                    &&& placed@[k].x == glyph_x(glyphs@, k)
                    &&& placed@[k].y == baseline
                },
            rects@.len() == columns_below(line.cursors@, i as nat).len(),
            forall|j: int|
                0 <= j < rects@.len() ==> is_cursor_rect(
                    #[trigger] rects@[j],
                    columns_below(line.cursors@, i as nat)[j],
                    glyphs@,
                    baseline as int,
                    *font,
                ),
        decreases glyphs.len() - i,
    {
        proof {
            lemma_pen_bounds(glyphs@, i as int);
            lemma_columns_below(line.cursors@, i as nat);
        }
        let kerning: i128 = if i > 0 {
            glyphs[i].kerning as i128
        } else {
            0
        };
        let x: i128 = pen + kerning;
        if holds_cursor(&line.cursors, i as u64) {
            rects.push(CursorRect { column: i as u64, x, y: top, width: CURSOR_WIDTH, height });
        }
        placed.push(PositionedGlyph { id: glyphs[i].id, x, y: baseline });
        pen = x + glyphs[i].advance as i128;
        i += 1;
    }
    proof {
        lemma_pen_bounds(glyphs@, i as int);
    }
    if holds_cursor(&line.cursors, i as u64) {
        rects.push(CursorRect { column: i as u64, x: pen, y: top, width: CURSOR_WIDTH, height });
    }
    let mut selections: Vec<Selection> = Vec::new();
    let mut s: usize = 0;
    while s < line.selections.len()
        invariant
            s <= line.selections.len(),
            selections@.len() == s,
            forall|k: int| 0 <= k < s ==> selections@[k]@ == line.selections@[k]@,
        decreases line.selections.len() - s,
    {
        selections.push(line.selections[s]);
        s += 1;
    }
    let layout = LineLayout { glyphs: placed, cursor_rects: rects, selections };
    assert(layout@.selections == line@.selections);
    layout
}

/// A cursor in the column after the last glyph is never dropped: it has
/// exactly one rectangle, the last of the line, and that rectangle stands
/// where the line ends, at the left edge of the last glyph plus its advance.
pub proof fn lemma_end_of_line_cursor(
    layout: LineLayoutModel,
    glyphs: Seq<GlyphMetrics>,
    line: LineModel,
    baseline: int,
    font: FontMetrics,
)
    requires
        is_line_layout(layout, glyphs, line, baseline, font),
        glyphs.len() <= u64::MAX,
        line.cursors.contains(glyphs.len() as u64),
    ensures
        layout.cursor_rects.len() > 0,
        layout.cursor_rects.last().column == glyphs.len(),
        layout.cursor_rects.last().x == line_end_x(glyphs),
        glyphs.len() > 0 ==> layout.cursor_rects.last().x == layout.glyphs.last().x
            + glyphs.last().advance,
        forall|j: int|
            0 <= j < layout.cursor_rects.len() - 1 ==> (#[trigger] layout.cursor_rects[j]).column
                < glyphs.len(),
{
    lemma_columns_below(line.cursors, glyphs.len());
    let columns = cursor_columns(line.cursors, glyphs.len());
    assert(columns == columns_below(line.cursors, glyphs.len()).push(glyphs.len() as u64));
    assert(is_cursor_rect(
        layout.cursor_rects[columns.len() - 1],
        columns[columns.len() - 1],
        glyphs,
        baseline,
        font,
    ));
    assert forall|j: int| 0 <= j < layout.cursor_rects.len() - 1 implies (
    #[trigger] layout.cursor_rects[j]).column < glyphs.len() by {
        assert(columns[j] == columns_below(line.cursors, glyphs.len())[j]);
    }
}

/// A cursor in the column of a glyph has exactly one rectangle, and that
/// rectangle stands at the left edge of the glyph.
pub proof fn lemma_cursor_on_glyph(
    layout: LineLayoutModel,
    glyphs: Seq<GlyphMetrics>,
    line: LineModel,
    baseline: int,
    font: FontMetrics,
    column: u64,
)
    requires
        is_line_layout(layout, glyphs, line, baseline, font),
        glyphs.len() < u64::MAX,
        column < glyphs.len(),
        line.cursors.contains(column),
    ensures
        exists|j: int|
            0 <= j < layout.cursor_rects.len() && (#[trigger] layout.cursor_rects[j]).column
                == column && layout.cursor_rects[j].x == layout.glyphs[column as int].x,
        forall|j: int, k: int|
            0 <= j < layout.cursor_rects.len() && 0 <= k < layout.cursor_rects.len() && (
            #[trigger] layout.cursor_rects[j]).column == (#[trigger] layout.cursor_rects[k]).column
                ==> j == k,
{
    lemma_cursor_columns(line.cursors, glyphs.len());
    let columns = cursor_columns(line.cursors, glyphs.len());
    let j = choose|j: int| 0 <= j < columns.len() && columns[j] == column;
    assert(layout.cursor_rects[j].column == column);
    assert forall|j: int, k: int|
        0 <= j < layout.cursor_rects.len() && 0 <= k < layout.cursor_rects.len() && (
        #[trigger] layout.cursor_rects[j]).column == (
        #[trigger] layout.cursor_rects[k]).column implies j == k by {
        assert(columns[j] == columns[k]);
        if j < k {
            assert(columns[j] < columns[k]);
        } else if k < j {
            assert(columns[k] < columns[j]);
        }
    }
}

/// A cursor in a column past the one after the last glyph has no rectangle,
/// nor has a column without a cursor.
pub proof fn lemma_no_other_cursor(
    layout: LineLayoutModel,
    glyphs: Seq<GlyphMetrics>,
    line: LineModel,
    baseline: int,
    font: FontMetrics,
)
    requires
        is_line_layout(layout, glyphs, line, baseline, font),
        glyphs.len() < u64::MAX,
    ensures
        forall|j: int|
            0 <= j < layout.cursor_rects.len() ==> {
                &&& (#[trigger] layout.cursor_rects[j]).column <= glyphs.len()
                &&& line.cursors.contains(layout.cursor_rects[j].column)
            },
{
    lemma_cursor_columns(line.cursors, glyphs.len());
}

/// What [`cursor_columns`] holds: exactly the columns up to the glyph count
/// that hold a cursor, in strictly increasing order.
pub proof fn lemma_cursor_columns(cursors: Seq<u64>, glyph_count: nat)
    requires
        glyph_count < u64::MAX,
    ensures
        forall|j: int|
            0 <= j < cursor_columns(cursors, glyph_count).len() ==> {
                &&& (#[trigger] cursor_columns(cursors, glyph_count)[j]) <= glyph_count
                &&& cursors.contains(cursor_columns(cursors, glyph_count)[j])
            },
        forall|j: int, k: int|
            0 <= j < k < cursor_columns(cursors, glyph_count).len() ==> cursor_columns(
                cursors,
                glyph_count,
            )[j] < cursor_columns(cursors, glyph_count)[k],
        forall|column: u64|
            column <= glyph_count && cursors.contains(column) ==> cursor_columns(
                cursors,
                glyph_count,
            ).contains(column),
{
    lemma_columns_below(cursors, glyph_count + 1);
}

impl View for LayoutResult {
    type V = Seq<LineLayoutModel>;

    open spec fn view(&self) -> Seq<LineLayoutModel> {
        Seq::new(self.lines@.len(), |row: int| self.lines@[row]@)
    }
}

/// The cursor rectangles of all lines of a frame, top to bottom.
pub open spec fn all_cursor_rects(frame: Seq<LineLayoutModel>) -> Seq<CursorRect>
    decreases frame.len(),
{
    if frame.len() == 0 {
        Seq::empty()
    } else {
        all_cursor_rects(frame.drop_last()) + frame.last().cursor_rects
    }
}

impl LayoutResult {
    /// The cursor rectangles of the frame: those of the first line, then
    /// those of the second, and so on.
    pub fn cursor_rects(&self) -> (rects: Vec<CursorRect>)
        ensures
            rects@ == all_cursor_rects(self@),
    {
        let mut rects: Vec<CursorRect> = Vec::new();
        let mut row: usize = 0;
        assert(self@.take(0) == Seq::<LineLayoutModel>::empty());
        while row < self.lines.len()
            invariant
                row <= self.lines.len(),
                rects@ == all_cursor_rects(self@.take(row as int)),
            decreases self.lines.len() - row,
        {
            let line = &self.lines[row];
            let ghost before = rects@;
            let mut i: usize = 0;
            while i < line.cursor_rects.len()
                invariant
                    i <= line.cursor_rects.len(),
                    rects@ == before + line.cursor_rects@.take(i as int),
                decreases line.cursor_rects.len() - i,
            {
                rects.push(line.cursor_rects[i]);
                assert(line.cursor_rects@.take(i + 1) == line.cursor_rects@.take(i as int).push(
                    line.cursor_rects@[i as int],
                ));
                i += 1;
            }
            proof {
                assert(line.cursor_rects@.take(i as int) == line.cursor_rects@);
                assert(self@.take(row + 1).drop_last() == self@.take(row as int));
                assert(self@.take(row + 1).last() == line@);
            }
            row += 1;
        }
        assert(self@.take(row as int) == self@);
        rects
    }
}

/// The glyphs measured for the line at `row`: those at `row` of `shaped`, or
/// none if `shaped` is too short.
pub open spec fn glyphs_of_row(shaped: Seq<Vec<GlyphMetrics>>, row: int) -> Seq<GlyphMetrics> {
    if 0 <= row < shaped.len() {
        shaped[row]@
    } else {
        Seq::empty()
    }
}

/// The baseline of the line at `row` of a view.
pub open spec fn row_baseline(state: ViewportModel, row: int, font: FontMetrics) -> int {
    baseline_of(state.first_line as int, row, font.line_height as int, state.scroll_offset)
}

/// Whether `frame` is the layout of the lines that `state` holds: one line
/// layout for each of them, top to bottom, each on the baseline of its row.
pub open spec fn is_frame_layout(
    frame: Seq<LineLayoutModel>,
    state: ViewportModel,
    shaped: Seq<Vec<GlyphMetrics>>,
    font: FontMetrics,
) -> bool {
    &&& frame.len() == state.lines.len()
    &&& forall|row: int|
        0 <= row < state.lines.len() ==> is_line_layout(
            #[trigger] frame[row],
            glyphs_of_row(shaped, row),
            state.lines[row],
            row_baseline(state, row, font),
            font,
        )
}

/// Computes the baseline of a row of the view.
fn baseline_at(state: &ViewportState, row: usize, font: &FontMetrics) -> (baseline: i128)
    ensures
        baseline == row_baseline(state@, row as int, *font),
        -BASELINE_LIMIT <= baseline <= BASELINE_LIMIT,
{
    let index: i128 = state.first_line() as i128 + row as i128 + 1;
    let height: i128 = font.line_height as i128;
    assert(0 <= index * height <= 0x2_0000_0000_0000_0000 * 0xffff_ffff) by (nonlinear_arith)
        requires
            0 <= index <= 0x2_0000_0000_0000_0000,
            0 <= height <= 0xffff_ffff,
    ;
    index * height - state.scroll_offset() - TOP_INSET
}

/// Lays out one row of the view with the glyphs measured for it, or `None` if
/// the view holds no such row.
pub fn layout_row(
    state: &ViewportState,
    row: usize,
    glyphs: &Vec<GlyphMetrics>,
    font: &FontMetrics,
) -> (layout: Option<LineLayout>)
    ensures
        match layout {
            Some(layout) => row < state@.lines.len() && is_line_layout(
                layout@,
                glyphs@,
                state@.lines[row as int],
                row_baseline(state@, row as int, *font),
                *font,
            ),
            None => row >= state@.lines.len(),
        },
{
    let lines = state.lines();
    if row < lines.len() {
        let baseline = baseline_at(state, row, font);
        assert(lines@[row as int]@ == state@.lines[row as int]);
        Some(layout_line(glyphs, &lines[row], baseline, font))
    } else {
        None
    }
}

/// Lays out a frame: carries out the pending scroll, lays out every line the
/// view holds with the glyphs measured for it, and marks the view as laid
/// out.
///
/// `shaped` holds the glyphs of each line, in the order of the lines; a line
/// for which it holds none is laid out without glyphs.
pub fn layout_frame(
    state: &mut ViewportState,
    shaped: &Vec<Vec<GlyphMetrics>>,
    font: &FontMetrics,
) -> (frame: LayoutResult)
    ensures
        final(state)@ == (ViewportModel {
            dirty: false,
            ..settled(old(state)@, font.line_height as int)
        }),
        final(state)@.scroll_offset >= 0,
        is_frame_layout(frame@, final(state)@, shaped@, *font),
{
    state.settle_scroll(font.line_height);
    state.mark_clean();
    let none: Vec<GlyphMetrics> = Vec::new();
    let mut laid: Vec<LineLayout> = Vec::new();
    let count = state.lines().len();
    let mut row: usize = 0;
    while row < count
        invariant
            row <= count,
            count == state@.lines.len(),
            none@.len() == 0,
            laid@.len() == row,
            forall|r: int|
                0 <= r < row ==> is_line_layout(
                    (#[trigger] laid@[r])@,
                    glyphs_of_row(shaped@, r),
                    state@.lines[r],
                    row_baseline(state@, r, *font),
                    *font,
                ),
        decreases count - row,
    {
        let glyphs = if row < shaped.len() {
            &shaped[row]
        } else {
            &none
        };
        assert(glyphs@ == glyphs_of_row(shaped@, row as int));
        match layout_row(state, row, glyphs, font) {
            Some(layout) => {
                laid.push(layout);
            },
            None => {},
        }
        row += 1;
    }
    LayoutResult { lines: laid }
}

} // verus!
