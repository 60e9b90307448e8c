//! The window of the document that the view holds, and where it is scrolled.

use crate::metrics::{pixels_to_units, units};
use crate::scroll::{lemma_scroll_idempotent, scroll_target, scroll_to_line, SCROLL_LIMIT};
use crate::update::{line_models, LineModel, LineView, UpdateModel, UpdatePayload};
use vstd::prelude::*;

verus! {

/// A request to bring a line into view that no layout pass has carried out
/// yet: the index of the line, or `None` if nothing is asked for. The next
/// layout pass carries it out once and forgets it.
pub type PendingScroll = Option<u64>;

/// What the view knows of the document and of itself.
///
/// The lines are those that the editing core reported last, never more: the
/// view neither keeps lines of an earlier report nor guesses missing ones.
/// The scroll offset is never negative.
#[derive(Debug)]
pub struct ViewportState {
    first_line: u64,
    lines: Vec<LineView>,
    view_width_px: u32,
    view_height_px: u32,
    scroll_offset: i128,
    pending_scroll: PendingScroll,
    dirty: bool,
}

/// What a [`ViewportState`] holds, as mathematical values.
pub struct ViewportModel {
    /// The document index of the first of `lines`.
    pub first_line: u64,
    /// The lines held, first to last.
    pub lines: Seq<LineModel>,
    /// The width of the view in pixels.
    pub view_width_px: u32,
    /// The height of the view in pixels.
    pub view_height_px: u32,
    /// How far the top of the view lies below the top of the document, in
    /// layout units.
    pub scroll_offset: int,
    /// The line that the next layout pass has to bring into view.
    pub pending_scroll: PendingScroll,
    /// Whether anything changed since the last layout pass.
    pub dirty: bool,
}

/// The state after an update: `lines` and `first_line` are replaced where the
/// update holds them, `scrollto` is kept for the next layout pass, and the
/// view is marked as changed.
pub open spec fn updated(state: ViewportModel, update: UpdateModel) -> ViewportModel {
    ViewportModel {
        first_line: match update.first_line {
            Some(index) => index,
            None => state.first_line,
        },
        lines: match update.lines {
            Some(lines) => lines,
            None => state.lines,
        },
        pending_scroll: match update.scrollto {
            Some(line) => Some(line),
            None => state.pending_scroll,
        },
        dirty: true,
        ..state
    }
}

/// The models of a sequence of updates.
pub open spec fn update_models(payloads: Seq<UpdatePayload>) -> Seq<UpdateModel> {
    Seq::new(payloads.len(), |i: int| payloads[i]@)
}

/// The state after a sequence of updates, applied first to last.
pub open spec fn updated_by_all(state: ViewportModel, updates: Seq<UpdateModel>) -> ViewportModel
    decreases updates.len(),
{
    if updates.len() == 0 {
        state
    } else {
        updated(updated_by_all(state, updates.drop_last()), updates.last())
    }
}

/// The lines of the last update of a sequence that holds lines, if any does.
pub open spec fn latest_lines(updates: Seq<UpdateModel>) -> Option<Seq<LineModel>>
    decreases updates.len(),
{
    if updates.len() == 0 {
        None
    } else if updates.last().lines is Some {
        updates.last().lines
    } else {
        latest_lines(updates.drop_last())
    }
}

/// After any sequence of updates the view holds exactly the lines of the most
/// recent update that carried lines, and as many: lines never pile up. If no
/// update carried lines, the view holds what it held before.
pub proof fn lemma_lines_follow_latest_update(state: ViewportModel, updates: Seq<UpdateModel>)
    ensures
        updated_by_all(state, updates).lines == match latest_lines(updates) {
            Some(lines) => lines,
            None => state.lines,
        },
        latest_lines(updates) is Some ==> updated_by_all(state, updates).lines.len()
            == latest_lines(updates)->0.len(),
    decreases updates.len(),
{
    if updates.len() > 0 {
        lemma_lines_follow_latest_update(state, updates.drop_last());
    }
}

/// The state after the pending scroll, if there is one, has been carried out
/// for the given line height.
pub open spec fn settled(state: ViewportModel, line_height: int) -> ViewportModel {
    ViewportModel {
        scroll_offset: match state.pending_scroll {
            Some(line) => scroll_target(
                state.scroll_offset,
                line as int,
                units(state.view_height_px as int),
                line_height,
            ),
            None => state.scroll_offset,
        },
        pending_scroll: None,
        ..state
    }
}

/// The state with a request to bring a line into view.
pub open spec fn requested(state: ViewportModel, line: u64) -> ViewportModel {
    ViewportModel { pending_scroll: Some(line), ..state }
}

/// Asking twice in a row for the same line, with a layout pass after each
/// request and nothing else in between, leaves the view where the first
/// request left it, provided the view is at least five lines high or the
/// line is one of the first two of the document.
pub proof fn lemma_repeated_scroll_request(state: ViewportModel, line: u64, line_height: u32)
    requires
        0 <= state.scroll_offset,
        units(state.view_height_px as int) >= 5 * line_height || line < 2,
    ensures
        ({
            let once = settled(requested(state, line), line_height as int);
            let twice = settled(requested(once, line), line_height as int);
            twice == once
        }),
{
    lemma_scroll_idempotent(
        state.scroll_offset,
        line as int,
        units(state.view_height_px as int),
        line_height as int,
    );
}

impl View for ViewportState {
    type V = ViewportModel;

    closed spec fn view(&self) -> ViewportModel {
        ViewportModel {
            first_line: self.first_line,
            lines: line_models(self.lines@),
            view_width_px: self.view_width_px,
            view_height_px: self.view_height_px,
            scroll_offset: self.scroll_offset as int,
            pending_scroll: self.pending_scroll,
            dirty: self.dirty,
        }
    }
}

impl ViewportState {
    #[verifier::type_invariant]
    spec fn scroll_in_range(self) -> bool {
        0 <= self.scroll_offset <= SCROLL_LIMIT
    }

    /// A view of the given size at the top of a document of which nothing is
    /// known yet.
    pub fn new(view_width_px: u32, view_height_px: u32) -> (state: ViewportState)
        ensures
            state@ == (ViewportModel {
                first_line: 0,
                lines: Seq::empty(),
                view_width_px,
                view_height_px,
                scroll_offset: 0,
                pending_scroll: None,
                dirty: false,
            }),
    {
        let state = ViewportState {
            first_line: 0,
            lines: Vec::new(),
            view_width_px,
            view_height_px,
            scroll_offset: 0,
            pending_scroll: None,
            dirty: false,
        };
        assert(line_models(state.lines@) == Seq::<LineModel>::empty());
        state
    }

    /// The document index of the first line held.
    pub fn first_line(&self) -> (index: u64)
        ensures
            index == self@.first_line,
    {
        self.first_line
    }

    /// The lines held.
    pub fn lines(&self) -> (lines: &Vec<LineView>)
        ensures
            line_models(lines@) == self@.lines,
    {
        &self.lines
    }

    /// The width of the view in pixels.
    pub fn view_width_px(&self) -> (width: u32)
        ensures
            width == self@.view_width_px,
    {
        self.view_width_px
    }

    /// The height of the view in pixels.
    pub fn view_height_px(&self) -> (height: u32)
        ensures
            height == self@.view_height_px,
    {
        self.view_height_px
    }

    /// How far the view is scrolled down, in layout units.
    pub fn scroll_offset(&self) -> (offset: i128)
        ensures
            offset == self@.scroll_offset,
            0 <= offset <= SCROLL_LIMIT,
    {
        proof {
            use_type_invariant(self);
        }
        self.scroll_offset
    }

    /// The line that the next layout pass will bring into view.
    pub fn pending_scroll(&self) -> (line: PendingScroll)
        ensures
            line == self@.pending_scroll,
    {
        self.pending_scroll
    }

    /// Whether the view changed since the last layout pass.
    pub fn is_dirty(&self) -> (dirty: bool)
        ensures
            dirty == self@.dirty,
    {
        self.dirty
    }

    /// Takes over what an update holds.
    pub fn apply_update(&mut self, payload: UpdatePayload)
        ensures
            final(self)@ == updated(old(self)@, payload@),
    {
        proof {
            use_type_invariant(&*self);
        }
        if let Some(lines) = payload.lines {
            self.lines = lines;
        }
        if let Some(index) = payload.first_line {
            self.first_line = index;
        }
        if let Some(line) = payload.scrollto {
            self.pending_scroll = Some(line);
        }
        self.dirty = true;
    }

    /// Takes over a run of updates, first to last: what the main loop does
    /// with all that arrived since it last looked.
    pub fn apply_all(&mut self, payloads: Vec<UpdatePayload>)
        ensures
            final(self)@ == updated_by_all(old(self)@, update_models(payloads@)),
    {
        let ghost all = update_models(payloads@);
        let ghost mut done: int = 0;
        assert(all.take(0) == Seq::<UpdateModel>::empty());
        for payload in it: payloads.into_iter()
            invariant
                it.seq() == payloads@,
                all == update_models(payloads@),
                done == it.index(),
                self@ == updated_by_all(old(self)@, all.take(done)),
        {
            proof {
                assert(all.take(done + 1).drop_last() == all.take(done));
                assert(all.take(done + 1).last() == payload@);
                done = done + 1;
            }
            self.apply_update(payload);
        }
        assert(all.take(done) == all);
    }

    /// Asks for a line to be brought into view by the next layout pass. A
    /// request not yet carried out is replaced.
    pub fn request_scroll_to(&mut self, line: u64)
        ensures
            final(self)@ == requested(old(self)@, line),
    {
        proof {
            use_type_invariant(&*self);
        }
        self.pending_scroll = Some(line);
    }

    /// Takes over a new size of the view and marks the view as changed.
    pub fn resize(&mut self, width_px: u32, height_px: u32)
        ensures
            final(self)@ == (ViewportModel {
                view_width_px: width_px,
                view_height_px: height_px,
                dirty: true,
                ..old(self)@
            }),
    {
        proof {
            use_type_invariant(&*self);
        }
        self.view_width_px = width_px;
        self.view_height_px = height_px;
        self.dirty = true;
    }

    /// Carries out the pending scroll, if there is one, and forgets it.
    pub fn settle_scroll(&mut self, line_height: u32)
        ensures
            final(self)@ == settled(old(self)@, line_height as int),
            final(self)@.scroll_offset >= 0,
    {
        proof {
            use_type_invariant(&*self);
        }
        if let Some(line) = self.pending_scroll {
            let view_height = pixels_to_units(self.view_height_px);
            self.scroll_offset = scroll_to_line(self.scroll_offset, line, view_height, line_height);
        }
        self.pending_scroll = None;
    }

    /// Marks the view as laid out.
    pub fn mark_clean(&mut self)
        ensures
            final(self)@ == (ViewportModel { dirty: false, ..old(self)@ }),
    {
        proof {
            use_type_invariant(&*self);
        }
        self.dirty = false;
    }
}

} // verus!
