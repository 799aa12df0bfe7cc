use crate::application::Application;
use crate::interface::ui_action::{action_views, UiAction};
use crate::interface::ui_error::UiError;
use crate::interface::ui_text::{
    enqueued, refreshed, text_action, text_contains, text_drawn, text_updated, text_wf, Refresh,
    UiText, UiTextView, UpdateFunction,
};
use crate::interface::ui_viewport::{
    viewport_contains, viewport_drawn, UiViewport, UiViewportView,
};
use crate::render::grid::{Grid, GridView};
use crate::render::quad::Quad;
use crate::util::vector::Vector2;
use std::collections::VecDeque;
use vstd::prelude::*;

verus! {

/// An element of the interface: one of a closed set of kinds, each of which
/// can be drawn, updated and asked whether the pointer is over it.
#[derive(Debug)]
pub enum UiElement {
    Text(UiText),
    Viewport(UiViewport),
}

/// What a [`UiElement`] holds.
pub enum UiElementView {
    Text(UiTextView),
    Viewport(UiViewportView),
}

impl View for UiElement {
    type V = UiElementView;

    open spec fn view(&self) -> UiElementView {
        match self {
            UiElement::Text(text) => UiElementView::Text(text@),
            UiElement::Viewport(viewport) => UiElementView::Viewport(viewport@),
        }
    }
}

/// The number that the screen gave the element.
pub open spec fn element_id(e: UiElementView) -> u64 {
    match e {
        UiElementView::Text(v) => v.id,
        UiElementView::Viewport(v) => v.id,
    }
}

/// The element with the number `id`.
pub open spec fn element_with_id(e: UiElementView, id: u64) -> UiElementView {
    match e {
        UiElementView::Text(v) => UiElementView::Text(UiTextView { id, ..v }),
        UiElementView::Viewport(v) => UiElementView::Viewport(UiViewportView { id, ..v }),
    }
}

/// The text of the element: itself, or the text inside a viewport.
pub open spec fn element_text(e: UiElementView) -> UiTextView {
    match e {
        UiElementView::Text(v) => v,
        UiElementView::Viewport(v) => v.inside,
    }
}

/// The element with another text in the place of its own.
pub open spec fn element_with_text(e: UiElementView, text: UiTextView) -> UiElementView {
    match e {
        UiElementView::Text(_) => UiElementView::Text(text),
        UiElementView::Viewport(v) => UiElementView::Viewport(
            UiViewportView { inside: text, ..v },
        ),
    }
}

/// The cells after the element is drawn.
pub open spec fn element_drawn(cells: Seq<Quad>, width: int, e: UiElementView) -> Seq<Quad> {
    match e {
        UiElementView::Text(v) => text_drawn(cells, width, v),
        UiElementView::Viewport(v) => viewport_drawn(cells, width, v),
    }
}

/// The element after a frame's update, or as it was if the update failed.
pub open spec fn element_updated(e: UiElementView, refresh: Refresh, app: Application) -> UiElementView {
    element_with_text(e, text_updated(element_text(e), refresh, app))
}

/// What a frame's update of the element returns: nothing, or the message
/// of its error.
pub open spec fn element_error(e: UiElementView, refresh: Refresh) -> Option<Seq<char>> {
    match refreshed(element_text(e), refresh) {
        Ok(_) => None,
        Err(message) => Some(message),
    }
}

/// Whether the cell at `p` lies on the element.
pub open spec fn element_contains(e: UiElementView, p: Vector2) -> bool {
    match e {
        UiElementView::Text(v) => text_contains(v, p),
        UiElementView::Viewport(v) => viewport_contains(v, p),
    }
}

impl UiElement {
    /// The element is well formed for its kind.
    pub open spec fn wf(&self) -> bool {
        match self {
            UiElement::Text(text) => text.wf(),
            UiElement::Viewport(viewport) => viewport.wf(),
        }
    }

    /// What well-formedness says of the view.
    pub proof fn lemma_wf(&self)
        requires
            self.wf(),
        ensures
            text_wf(element_text(self@)),
    {
        match self {
            UiElement::Text(text) => {},
            UiElement::Viewport(viewport) => {
                viewport.lemma_wf();
            },
        }
    }

    /// The number that the screen gave the element; 0 before it is added.
    pub fn id(&self) -> (id: u64)
        ensures
            id == element_id(self@),
    {
        match self {
            UiElement::Text(text) => text.id(),
            UiElement::Viewport(viewport) => viewport.id(),
        }
    }

    /// Draws the element onto the grid.
    pub fn draw(&self, grid: &mut Grid) -> (res: Result<(), UiError>)
        requires
            old(grid).wf(),
        ensures
            final(grid).wf(),
            res is Ok,
            final(grid)@ == (GridView {
                cells: element_drawn(old(grid)@.cells, old(grid)@.width as int, self@),
                ..old(grid)@
            }),
    {
        match self {
            UiElement::Text(text) => text.draw(grid),
            UiElement::Viewport(viewport) => viewport.draw(grid),
        }
    }

    /// Updates the element for a frame: its text asks the callback whether
    /// it is to change, settles, and answers to the pointer.
    pub fn update<U: UpdateFunction>(
        &mut self,
        app: &Application,
        grid: &Grid,
        action_queue: &mut VecDeque<UiAction>,
        update_function: &U,
    ) -> (res: Result<(), UiError>)
        requires
            old(self).wf(),
        ensures
            final(self).wf(),
            exists|refresh: Refresh|
                #![auto]
                {
                    &&& final(self)@ == element_updated(old(self)@, refresh, *app)
                    &&& action_views(final(action_queue)@) == enqueued(
                        action_views(old(action_queue)@),
                        text_action(element_text(old(self)@), refresh, *app),
                    )
                    &&& match element_error(old(self)@, refresh) {
                        None => res is Ok,
                        Some(message) => res is Err && res->Err_0@ == message,
                    }
                },
    {
        let res = match self {
            UiElement::Text(text) => text.update(app, grid, action_queue, update_function),
            UiElement::Viewport(viewport) => viewport.update(
                app,
                grid,
                action_queue,
                update_function,
            ),
        };
        proof {
            let before = element_text(old(self)@);
            let refresh = choose|refresh: Refresh|
                #![auto]
                {
                    &&& element_text(self@) == text_updated(before, refresh, *app)
                    &&& action_views(action_queue@) == enqueued(
                        action_views(old(action_queue)@),
                        text_action(before, refresh, *app),
                    )
                    &&& match refreshed(before, refresh) {
                        Ok(_) => res is Ok,
                        Err(message) => res is Err && res->Err_0@ == message,
                    }
                };
            assert(self@ == element_updated(old(self)@, refresh, *app));
        }
        res
    }

    /// Whether the pointer is over the element.
    pub fn is_mouse_on_element(&self, app: &Application, grid: &Grid) -> (on: bool)
        ensures
            on == element_contains(self@, app.grid_position),
    {
        match self {
            UiElement::Text(text) => text.is_mouse_on_element(app, grid),
            UiElement::Viewport(viewport) => viewport.is_mouse_on_element(app, grid),
        }
    }

    pub fn set_id(&mut self, id: u64)
        ensures
            final(self)@ == element_with_id(old(self)@, id),
            old(self).wf() ==> final(self).wf(),
    {
        match self {
            UiElement::Text(text) => text.set_id(id),
            UiElement::Viewport(viewport) => viewport.set_id(id),
        }
    }

    /// The bottom left corner of the element.
    pub fn get_pos(&self) -> (pos: Vector2)
        requires
            self.wf(),
        ensures
            pos.x == element_text(self@).pos.x,
            pos.y == element_text(self@).pos.y - element_text(self@).size.y + 1,
    {
        match self {
            UiElement::Text(text) => text.get_pos(),
            UiElement::Viewport(viewport) => viewport.get_pos(),
        }
    }

    /// The size of the element; a viewport is one column wider than its text.
    pub fn get_size(&self) -> (size: Vector2)
        requires
            self.wf(),
        ensures
            size == (match self@ {
                UiElementView::Text(v) => v.size,
                UiElementView::Viewport(v) => Vector2 {
                    x: (v.inside.size.x + 1) as i32,
                    y: v.inside.size.y,
                },
            }),
    {
        match self {
            UiElement::Text(text) => text.get_size(),
            UiElement::Viewport(viewport) => viewport.get_size(),
        }
    }

    /// The extent of what the element holds: that of the words of a text,
    /// the size of a viewport.
    pub fn get_max_size(&self) -> (size: Vector2)
        requires
            self.wf(),
        ensures
            size == (match self@ {
                UiElementView::Text(v) => v.max_size,
                UiElementView::Viewport(v) => Vector2 {
                    x: (v.inside.size.x + 1) as i32,
                    y: v.inside.size.y,
                },
            }),
    {
        match self {
            UiElement::Text(text) => text.get_max_size(),
            UiElement::Viewport(viewport) => viewport.get_max_size(),
        }
    }

    /// By how much the element's content is moved; nothing for a viewport.
    pub fn get_offset(&self) -> (offset: Vector2)
        ensures
            offset == (match self@ {
                UiElementView::Text(v) => v.offset,
                UiElementView::Viewport(_) => Vector2 { x: 0, y: 0 },
            }),
    {
        match self {
            UiElement::Text(text) => text.get_offset(),
            UiElement::Viewport(viewport) => viewport.get_offset(),
        }
    }

    /// Moves the element's content; a viewport stays as it is.
    pub fn set_offset(&mut self, offset: Vector2)
        ensures
            final(self)@ == (match old(self)@ {
                UiElementView::Text(v) => UiElementView::Text(UiTextView { offset, ..v }),
                UiElementView::Viewport(v) => UiElementView::Viewport(v),
            }),
            old(self).wf() ==> final(self).wf(),
    {
        match self {
            UiElement::Text(text) => text.set_offset(offset),
            UiElement::Viewport(viewport) => viewport.set_offset(offset),
        }
    }
}

} // verus!
