use crate::application::Application;
use crate::interface::ui_action::{action_views, UiAction};
use crate::interface::ui_error::UiError;
use crate::interface::ui_text::{
    enqueued, refreshed, text_action, text_drawn, text_updated, Refresh, UiText, UiTextView,
    UpdateFunction,
};
use crate::render::grid::{painted, CellOp, Grid, GridView, Rect};
use crate::render::quad::Quad;
use crate::util::vector::Vector2;
use std::collections::VecDeque;
use vstd::prelude::*;

verus! {

/// What a [`UiViewport`] holds.
pub struct UiViewportView {
    pub id: u64,
    pub inside: UiTextView,
}

/// A text element with a vertical scrollbar in the column to its right.
#[derive(Debug)]
pub struct UiViewport {
    id: u64,
    inside_element: UiText,
}

impl View for UiViewport {
    type V = UiViewportView;

    closed spec fn view(&self) -> UiViewportView {
        UiViewportView { id: self.id, inside: self.inside_element@ }
    }
}

/// The column of the scrollbar, over the rows of the box.
pub open spec fn track_rect(v: UiTextView) -> Rect {
    Rect {
        left: v.pos.x + v.size.x,
        bottom: v.pos.y - v.size.y + 1,
        right: v.pos.x + v.size.x + 1,
        top: v.pos.y + 1,
    }
}

/// The number of rows of the scrollbar's handle: the share of the track,
/// less its two ends, that the box shows of the words.
pub open spec fn handle_size(v: UiTextView) -> int {
    if v.max_size.y > 0 {
        (v.size.y - 2) * (v.size.y - 2) / (v.max_size.y as int)
    } else {
        0
    }
}

/// The row above the scrollbar's handle: the top of the track, less the
/// rows by which the words have moved where there is room to move.
pub open spec fn handle_top(v: UiTextView) -> int {
    if v.max_size.y != v.size.y {
        v.pos.y + 1 - v.offset.y
    } else {
        v.pos.y + 1
    }
}

/// The cells of the scrollbar's handle.
pub open spec fn handle_rect(v: UiTextView) -> Rect {
    Rect {
        left: v.pos.x + v.size.x,
        bottom: handle_top(v) - handle_size(v),
        right: v.pos.x + v.size.x + 1,
        top: handle_top(v),
    }
}

/// The cells after the viewport is drawn: the text, then the track of the
/// scrollbar, then its handle.
pub open spec fn viewport_drawn(cells: Seq<Quad>, width: int, v: UiViewportView) -> Seq<Quad> {
    painted(
        painted(text_drawn(cells, width, v.inside), width, track_rect(v.inside), CellOp::Char('▒')),
        width,
        handle_rect(v.inside),
        CellOp::Char('█'),
    )
}

/// Whether the cell at `p` lies in the box of the text or on the scrollbar.
pub open spec fn viewport_contains(v: UiViewportView, p: Vector2) -> bool {
    &&& v.inside.pos.x <= p.x < v.inside.pos.x + v.inside.size.x + 1
    &&& v.inside.pos.y - v.inside.size.y < p.y <= v.inside.pos.y
}

impl UiViewport {
    /// The text inside is well formed and leaves room for the scrollbar.
    pub closed spec fn wf(&self) -> bool {
        self.inside_element.wf() && self.inside_element@.size.x < i32::MAX
    }

    /// What well-formedness says of the view.
    pub proof fn lemma_wf(&self)
        requires
            self.wf(),
        ensures
            crate::interface::ui_text::text_wf(self@.inside),
            self@.inside.size.x < i32::MAX,
    {
    }

    /// Puts a scrollbar beside a text element.
    pub fn new(inside_element: UiText) -> (viewport: UiViewport)
        requires
            inside_element.wf(),
            inside_element@.size.x < i32::MAX,
        ensures
            viewport.wf(),
            viewport@ == (UiViewportView { id: 0, inside: inside_element@ }),
    {
        UiViewport { id: 0, inside_element }
    }

    /// The text element inside.
    pub fn inside_element(&self) -> (inside: &UiText)
        ensures
            inside@ == self@.inside,
    {
        &self.inside_element
    }

    /// The number that the screen gave the viewport; 0 before it is added.
    pub fn id(&self) -> (id: u64)
        ensures
            id == self@.id,
    {
        self.id
    }

    /// Draws the text inside, then the scrollbar.
    pub fn draw(&self, grid: &mut Grid) -> (res: Result<(), UiError>)
        requires
            old(grid).wf(),
        ensures
            final(grid).wf(),
            res is Ok,
            final(grid)@ == (GridView {
                cells: viewport_drawn(old(grid)@.cells, old(grid)@.width as int, self@),
                ..old(grid)@
            }),
    {
        let _ = self.inside_element.draw(grid);
        let pos = self.inside_element.get_top_left();
        let size = self.inside_element.get_size();
        let max_size = self.inside_element.get_max_size();
        let offset = self.inside_element.get_offset();
        let column: i128 = pos.x as i128 + size.x as i128;
        let top: i128 = pos.y as i128 + 1;
        grid.paint(column, top - size.y as i128, column + 1, top, CellOp::Char('▒'));
        let span: i128 = size.y as i128 - 2;
        assert(0 <= span * span <= 0x1_0000_0000_0000_0000) by (nonlinear_arith)
            requires
                -0x1_0000_0000 <= span <= 0x1_0000_0000,
        ;
        let handle: i128 = if max_size.y > 0 { span * span / max_size.y as i128 } else { 0 };
        assert(0 <= handle <= span * span) by (nonlinear_arith)
            requires
                0 <= span * span,
                handle == (if max_size.y > 0 { span * span / (max_size.y as int) } else { 0 }),
        ;
        let handle_top: i128 = if max_size.y != size.y { top - offset.y as i128 } else { top };
        grid.paint(column, handle_top - handle, column + 1, handle_top, CellOp::Char('█'));
        Ok(())
    }

    /// Updates the text inside.
    pub fn update<U: UpdateFunction>(
        &mut self,
        app: &Application,
        grid: &Grid,
        action_queue: &mut VecDeque<UiAction>,
        update_function: &U,
    ) -> (res: Result<(), UiError>)
        requires
            old(self).wf(),
        ensures
            final(self).wf(),
            exists|refresh: Refresh|
                #![auto]
                {
                    &&& final(self)@ == (UiViewportView {
                        inside: text_updated(old(self)@.inside, refresh, *app),
                        ..old(self)@
                    })
                    &&& action_views(final(action_queue)@) == enqueued(
                        action_views(old(action_queue)@),
                        text_action(old(self)@.inside, refresh, *app),
                    )
                    &&& match refreshed(old(self)@.inside, refresh) {
                        Ok(_) => res is Ok,
                        Err(message) => res is Err && res->Err_0@ == message,
                    }
                },
    {
        self.inside_element.update(app, grid, action_queue, update_function)
    }

    /// Whether the pointer is over the text or the scrollbar.
    pub fn is_mouse_on_element(&self, app: &Application, _grid: &Grid) -> (on: bool)
        ensures
            on == viewport_contains(self@, app.grid_position),
    {
        let pos = self.inside_element.get_top_left();
        let size = self.inside_element.get_size();
        let x: i64 = app.grid_position.x as i64;
        let y: i64 = app.grid_position.y as i64;
        x >= pos.x as i64 && x < pos.x as i64 + size.x as i64 + 1 && y > pos.y as i64
            - size.y as i64 && y <= pos.y as i64
    }

    pub fn set_id(&mut self, id: u64)
        ensures
            final(self)@ == (UiViewportView { id, ..old(self)@ }),
            old(self).wf() ==> final(self).wf(),
    {
        self.id = id;
    }

    /// The bottom left corner of the text inside.
    pub fn get_pos(&self) -> (pos: Vector2)
        requires
            self.wf(),
        ensures
            pos.x == self@.inside.pos.x,
            pos.y == self@.inside.pos.y - self@.inside.size.y + 1,
    {
        self.inside_element.get_pos()
    }

    /// The size of the text inside and one column more.
    pub fn get_size(&self) -> (size: Vector2)
        requires
            self.wf(),
        ensures
            size.x == self@.inside.size.x + 1,
            size.y == self@.inside.size.y,
    {
        let inner = self.inside_element.get_size();
        Vector2 { x: inner.x + 1, y: inner.y }
    }

    /// The viewport shows all of itself: its extent is its size.
    pub fn get_max_size(&self) -> (size: Vector2)
        requires
            self.wf(),
        ensures
            size.x == self@.inside.size.x + 1,
            size.y == self@.inside.size.y,
    {
        self.get_size()
    }

    /// The viewport itself does not scroll.
    pub fn get_offset(&self) -> (offset: Vector2)
        ensures
            offset == (Vector2 { x: 0, y: 0 }),
    {
        Vector2 { x: 0, y: 0 }
    }

    /// The viewport itself does not scroll: nothing changes.
    pub fn set_offset(&mut self, _offset: Vector2)
        ensures
            *final(self) == *old(self),
    {
    }
}

} // verus!
