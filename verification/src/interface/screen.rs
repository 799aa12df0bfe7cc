use crate::application::Application;
use crate::interface::box_drawing::BoxDrawing;
use crate::interface::ui_action::{action_views, UiAction, UiActionView};
use crate::interface::ui_element::{
    element_drawn, element_error, element_id, element_text, element_updated, element_with_id,
    UiElement, UiElementView,
};
use crate::interface::ui_error::UiError;
use crate::interface::ui_text::{
    enqueued, new_text, text_action, text_wf, Refresh, UiText, UiTextView, UpdateFunction,
};
use crate::interface::word::{escape_markup, escaped};
use crate::interface::word::{lemma_escaped_text_is_laid_out, layout_fits};
use crate::render::cache_glyph::{
    after_requests, CacheView, FontBackend, GlyphBitmapView, GlyphCacheError,
};
use crate::render::grid::{
    bg_attributes, cell_chars, fg_attributes, uv_attributes, Grid, GridView,
};
use crate::render::quad::blank_quad;
use crate::util::rgba8::RGBA8;
use crate::util::vector::Vector2;
use std::collections::VecDeque;
use vstd::prelude::*;

verus! {

/// What a [`Screen`] holds.
pub struct ScreenView {
    pub grid: GridView,
    pub elements: Seq<UiElementView>,
    /// The number that the next element will be given.
    pub next_id: u64,
    /// The actions that wait to be carried out, the oldest first.
    pub queue: Seq<UiActionView>,
}

/// The grid, the elements that are drawn onto it on each frame, and the
/// queue of the changes that the elements have asked for.
pub struct Screen {
    grid: Grid,
    ui_elements: Vec<UiElement>,
    next_id: u64,
    action_queue: VecDeque<UiAction>,
}

/// The views of a sequence of elements, in order.
pub open spec fn element_views(elements: Seq<UiElement>) -> Seq<UiElementView> {
    Seq::new(elements.len(), |i: int| elements[i]@)
}

impl View for Screen {
    type V = ScreenView;

    closed spec fn view(&self) -> ScreenView {
        ScreenView {
            grid: self.grid@,
            elements: element_views(self.ui_elements@),
            next_id: self.next_id,
            queue: action_views(self.action_queue@),
        }
    }
}

/// The elements are numbered in the order in which they were added: the
/// `i`-th has the number `i`, and the next number is the number of elements.
pub open spec fn numbered(s: ScreenView) -> bool {
    &&& s.next_id == s.elements.len()
    &&& forall|i: int| 0 <= i < s.elements.len() ==> element_id(#[trigger] s.elements[i]) == i
}

/// The screen with one more element, which is given the next number.
pub open spec fn with_element(s: ScreenView, e: UiElementView) -> ScreenView {
    ScreenView {
        elements: s.elements.push(element_with_id(e, s.next_id)),
        next_id: (s.next_id + 1) as u64,
        ..s
    }
}

/// The colour of an error banner's text.
pub open spec fn banner_color() -> RGBA8 {
    RGBA8 { r: 255, g: 0, b: 0, a: 255 }
}

/// The row of an error banner on a grid of `height` rows: near the bottom,
/// 85 hundredths of the height below the top row.
pub open spec fn banner_row(height: nat) -> int {
    height - 1 - (height * 85) / 100
}

/// The banner that shows an error's message on a grid of the given size: one
/// row of red text in a double box, centred, near the bottom. The message is
/// shown as it stands, its escape characters doubled. There is no banner
/// for a message whose length or whose row is out of the range of `i32`, or
/// whose layout fails.
pub open spec fn banner(message: Seq<char>, width: nat, height: nat) -> Option<UiTextView> {
    if message.len() <= i32::MAX && banner_row(height) <= i32::MAX {
        match new_text(
            escaped(message),
            banner_pos(message.len(), width, height),
            Vector2 { x: message.len() as i32, y: 1 },
        ) {
            Ok(v) => Some(
                UiTextView {
                    fg_color: banner_color(),
                    box_around: true,
                    box_type: BoxDrawing::Double,
                    ..v
                },
            ),
            Err(_) => None,
        }
    } else {
        None
    }
}

/// The place of an error banner's first character.
pub open spec fn banner_pos(len: nat, width: nat, height: nat) -> Vector2 {
    Vector2 { x: (width / 2 - len / 2) as i32, y: banner_row(height) as i32 }
}

/// An error has its banner wherever the coordinate range can hold it: its
/// message, with the escape characters doubled, raises no error of its own.
pub proof fn lemma_banner_is_made(message: Seq<char>, width: nat, height: nat)
    requires
        message.len() <= i32::MAX,
        banner_row(height) <= i32::MAX,
        width <= u32::MAX,
        layout_fits(
            escaped(message).len(),
            banner_pos(message.len(), width, height),
            Vector2 { x: message.len() as i32, y: 1 },
        ),
    ensures
        banner(message, width, height) is Some,
{
    lemma_escaped_text_is_laid_out(
        message,
        banner_pos(message.len(), width, height),
        Vector2 { x: message.len() as i32, y: 1 },
    );
}

/// The screen after one action is carried out. A text element is added if
/// its text can be laid out; if not, the error waits at the end of the
/// queue. An error is shown as a banner where there can be one.
pub open spec fn performed(s: ScreenView, action: UiActionView) -> ScreenView {
    match action {
        UiActionView::AddUiText(text, pos, size) => match new_text(text, pos, size) {
            Ok(v) => with_element(s, UiElementView::Text(v)),
            Err(message) => ScreenView {
                queue: s.queue.push(UiActionView::WriteError(message)),
                ..s
            },
        },
        UiActionView::WriteError(message) => match banner(message, s.grid.width, s.grid.height) {
            Some(v) => with_element(s, UiElementView::Text(v)),
            None => s,
        },
    }
}

/// What an action can still cost: an added text may leave an error behind,
/// an error leaves nothing.
pub open spec fn action_weight(a: UiActionView) -> nat {
    match a {
        UiActionView::AddUiText(_, _, _) => 2,
        UiActionView::WriteError(_) => 1,
    }
}

/// What the actions of a queue can still cost.
pub open spec fn queue_weight(queue: Seq<UiActionView>) -> nat
    decreases queue.len(),
{
    if queue.len() == 0 {
        0
    } else {
        action_weight(queue[0]) + queue_weight(queue.drop_first())
    }
}

/// An action at the end of a queue adds its weight to the queue's.
pub proof fn lemma_queue_weight_push(queue: Seq<UiActionView>, a: UiActionView)
    ensures
        queue_weight(queue.push(a)) == queue_weight(queue) + action_weight(a),
    decreases queue.len(),
{
    if queue.len() == 0 {
        assert(queue.push(a).drop_first() =~= Seq::<UiActionView>::empty());
        assert(queue_weight(queue.push(a).drop_first()) == 0);
        assert(queue.push(a)[0] == a);
    } else {
        lemma_queue_weight_push(queue.drop_first(), a);
        assert(queue.push(a).drop_first() =~= queue.drop_first().push(a));
    }
}

/// Carrying out the first action of a queue leaves a queue that weighs less.
pub proof fn lemma_performed_weighs_less(s: ScreenView)
    requires
        s.queue.len() > 0,
    ensures
        queue_weight(performed(ScreenView { queue: s.queue.drop_first(), ..s }, s.queue[0]).queue)
            < queue_weight(s.queue),
{
    let rest = ScreenView { queue: s.queue.drop_first(), ..s };
    match s.queue[0] {
        UiActionView::AddUiText(text, pos, size) => {
            match new_text(text, pos, size) {
                Ok(_) => {},
                Err(message) => {
                    lemma_queue_weight_push(rest.queue, UiActionView::WriteError(message));
                },
            }
        },
        UiActionView::WriteError(_) => {},
    }
}

/// The screen after every action of the queue is carried out, the oldest
/// first, those included that wait behind them by then.
pub open spec fn drained(s: ScreenView) -> ScreenView
    decreases queue_weight(s.queue),
{
    if s.queue.len() == 0 {
        s
    } else {
        proof {
            lemma_performed_weighs_less(s);
        }
        drained(performed(ScreenView { queue: s.queue.drop_first(), ..s }, s.queue[0]))
    }
}

/// The screen after the `i`-th element is updated and drawn: the action
/// that it asks for, if any, waits in the queue, and behind it the error of
/// an update that failed.
pub open spec fn element_step(s: ScreenView, i: int, refresh: Refresh, app: Application) -> ScreenView {
    let before = s.elements[i];
    let after = element_updated(before, refresh, app);
    let asked = enqueued(s.queue, text_action(element_text(before), refresh, app));
    ScreenView {
        grid: GridView {
            cells: element_drawn(s.grid.cells, s.grid.width as int, after),
            ..s.grid
        },
        elements: s.elements.update(i, after),
        queue: match element_error(before, refresh) {
            Some(message) => asked.push(UiActionView::WriteError(message)),
            None => asked,
        },
        ..s
    }
}

/// The screen after the grid is cleared and the first `k` elements are
/// updated and drawn, in order, where the callback answers `refreshes[i]`
/// for the `i`-th.
pub open spec fn walked(s: ScreenView, app: Application, refreshes: Seq<Refresh>, k: nat) -> ScreenView
    decreases k,
{
    if k == 0 {
        ScreenView {
            grid: GridView {
                cells: Seq::new(s.grid.cells.len(), |i: int| blank_quad()),
                ..s.grid
            },
            ..s
        }
    } else {
        element_step(walked(s, app, refreshes, (k - 1) as nat), k - 1, refreshes[k - 1], app)
    }
}

/// The callbacks' answers for the first elements do not depend on those
/// for the later ones.
proof fn lemma_walked_extends(
    s: ScreenView,
    app: Application,
    refreshes: Seq<Refresh>,
    longer: Seq<Refresh>,
    k: nat,
)
    requires
        k <= refreshes.len() <= longer.len(),
        forall|i: int| 0 <= i < refreshes.len() ==> longer[i] == refreshes[i],
    ensures
        walked(s, app, longer, k) == walked(s, app, refreshes, k),
    decreases k,
{
    if k > 0 {
        lemma_walked_extends(s, app, refreshes, longer, (k - 1) as nat);
    }
}

/// An element that is added gets a number that no element had before, and
/// that is greater than the numbers of all the elements before it.
pub proof fn lemma_added_element_is_numbered(s: ScreenView, e: UiElementView)
    requires
        numbered(s),
        s.next_id < u64::MAX,
    ensures
        numbered(with_element(s, e)),
        element_id(with_element(s, e).elements.last()) == s.next_id,
        forall|i: int|
            0 <= i < s.elements.len() ==> element_id(#[trigger] with_element(s, e).elements[i])
                < element_id(with_element(s, e).elements.last()),
{
}

/// Carrying out an action adds at most one element, behind those that are
/// there, and leaves those as they are and all elements numbered.
pub proof fn lemma_performed_appends(s: ScreenView, action: UiActionView)
    requires
        numbered(s),
        s.next_id < u64::MAX,
    ensures
        numbered(performed(s, action)),
        s.elements.len() <= performed(s, action).elements.len() <= s.elements.len() + 1,
        forall|i: int|
            0 <= i < s.elements.len() ==> #[trigger] performed(s, action).elements[i]
                == s.elements[i],
{
}

/// Draining the queue empties it, adds elements only behind those that are
/// there, leaves those as they are, and leaves all elements numbered: each
/// new element has a number that is greater than every number before it.
pub proof fn lemma_drained_appends(s: ScreenView)
    requires
        numbered(s),
        s.next_id + queue_weight(s.queue) <= u64::MAX,
    ensures
        drained(s).queue.len() == 0,
        numbered(drained(s)),
        s.elements.len() <= drained(s).elements.len() <= s.elements.len() + queue_weight(
            s.queue,
        ),
        forall|i: int| 0 <= i < s.elements.len() ==> #[trigger] drained(s).elements[i] == s.elements[i],
    decreases queue_weight(s.queue),
{
    if s.queue.len() > 0 {
        let rest = ScreenView { queue: s.queue.drop_first(), ..s };
        let next = performed(rest, s.queue[0]);
        lemma_performed_weighs_less(s);
        lemma_performed_appends(rest, s.queue[0]);
        lemma_drained_appends(next);
        assert forall|i: int| 0 <= i < s.elements.len() implies #[trigger] drained(s).elements[i]
            == s.elements[i] by {
            assert(next.elements[i] == s.elements[i]);
        }
    }
}

/// A click on the one word of a screen's only element, where the word names
/// an action that adds a text whose layout succeeds, has exactly one action
/// drained and exactly one element added, with the next number.
pub proof fn lemma_click_adds_one_element(
    s: ScreenView,
    app: Application,
    text: Seq<char>,
    pos: Vector2,
    size: Vector2,
)
    requires
        numbered(s),
        s.elements.len() == 1,
        s.queue.len() == 0,
        text_action(element_text(s.elements[0]), Refresh::Keep, app) == Some(
            UiActionView::AddUiText(text, pos, size),
        ),
        new_text(text, pos, size) is Ok,
    ensures
        ({
            let walk = walked(s, app, seq![Refresh::Keep], 1);
            let end = drained(walk);
            &&& walk.queue == seq![UiActionView::AddUiText(text, pos, size)]
            &&& end.queue.len() == 0
            &&& end.elements.len() == 2
            &&& end.elements[0] == walk.elements[0]
            &&& end.elements[1] == UiElementView::Text(
                UiTextView { id: 1, ..new_text(text, pos, size)->Ok_0 },
            )
            &&& end.next_id == 2
        }),
{
    let action = UiActionView::AddUiText(text, pos, size);
    let start = walked(s, app, seq![Refresh::Keep], 0);
    let walk = walked(s, app, seq![Refresh::Keep], 1);
    assert(walk == element_step(start, 0, Refresh::Keep, app));
    assert(walk.queue =~= seq![action]);
    let rest = ScreenView { queue: walk.queue.drop_first(), ..walk };
    assert(rest.queue =~= Seq::<UiActionView>::empty());
    let next = performed(rest, action);
    assert(drained(walk) == drained(next));
    assert(next.queue.len() == 0);
    assert(drained(next) == next);
}

impl Screen {
    /// The grid and every element are well formed, and the elements are
    /// numbered in the order in which they were added.
    pub closed spec fn wf(&self) -> bool {
        &&& self.grid.wf()
        &&& forall|i: int| 0 <= i < self.ui_elements@.len() ==> (#[trigger] self.ui_elements@[i]).wf()
        &&& numbered(self@)
    }

    /// What well-formedness says of the view.
    pub proof fn lemma_wf(&self)
        requires
            self.wf(),
        ensures
            numbered(self@),
            forall|i: int|
                0 <= i < self@.elements.len() ==> text_wf(element_text(#[trigger] self@.elements[i])),
    {
        assert forall|i: int| 0 <= i < self@.elements.len() implies text_wf(
            element_text(#[trigger] self@.elements[i]),
        ) by {
            self.ui_elements@[i].lemma_wf();
        }
    }

    /// A screen over the given grid, with no element and nothing to do.
    pub fn with_grid(grid: Grid) -> (screen: Screen)
        requires
            grid.wf(),
        ensures
            screen.wf(),
            screen@ == (ScreenView {
                grid: grid@,
                elements: Seq::empty(),
                next_id: 0,
                queue: Seq::empty(),
            }),
    {
        let screen = Screen {
            grid,
            ui_elements: Vec::new(),
            next_id: 0,
            action_queue: VecDeque::new(),
        };
        proof {
            assert(screen@.elements =~= Seq::<UiElementView>::empty());
            assert(screen@.queue =~= Seq::<UiActionView>::empty());
        }
        screen
    }

    /// A screen over a cleared grid of the given size, with no element and
    /// nothing to do.
    pub fn new(grid_width: u32, grid_height: u32) -> (screen: Screen)
        requires
            16 * grid_width * grid_height <= usize::MAX,
        ensures
            screen.wf(),
            screen@.grid.width == grid_width,
            screen@.grid.height == grid_height,
            screen@.elements == Seq::<UiElementView>::empty(),
            screen@.next_id == 0,
            screen@.queue == Seq::<UiActionView>::empty(),
    {
        Screen::with_grid(Grid::new(grid_width, grid_height))
    }

    /// The grid.
    pub fn grid(&self) -> (grid: &Grid)
        ensures
            grid@ == self@.grid,
            self.wf() ==> grid.wf(),
    {
        &self.grid
    }

    /// The elements, in the order in which they were added.
    pub fn ui_elements(&self) -> (elements: &Vec<UiElement>)
        ensures
            element_views(elements@) == self@.elements,
    {
        &self.ui_elements
    }

    /// The number that the next element will be given.
    pub fn next_id(&self) -> (id: u64)
        ensures
            id == self@.next_id,
    {
        self.next_id
    }

    /// The number of actions that wait to be carried out.
    pub fn pending_actions(&self) -> (n: usize)
        ensures
            n == self@.queue.len(),
    {
        self.action_queue.len()
    }

    /// Puts an action at the end of the queue.
    pub fn push_action(&mut self, action: UiAction)
        requires
            old(self).wf(),
        ensures
            final(self).wf(),
            final(self)@ == (ScreenView { queue: old(self)@.queue.push(action@), ..old(self)@ }),
    {
        proof {
            assert(action_views(self.action_queue@.push(action)) =~= action_views(
                self.action_queue@,
            ).push(action@));
        }
        self.action_queue.push_back(action);
    }

    /// Adds an element, which is given the next number.
    pub fn add_element(&mut self, ui_element: UiElement)
        requires
            old(self).wf(),
            ui_element.wf(),
        ensures
            final(self).wf(),
            final(self)@ == with_element(old(self)@, ui_element@),
    {
        let mut ui_element = ui_element;
        ui_element.set_id(self.next_id);
        let ghost added = ui_element@;
        proof {
            assert(element_views(self.ui_elements@.push(ui_element)) =~= element_views(
                self.ui_elements@,
            ).push(added));
        }
        self.ui_elements.push(ui_element);
        self.next_id = self.ui_elements.len() as u64;
    }

    /// Derives the grid's vertex attributes for the next frame, as
    /// [`Grid::draw`] does.
    pub fn draw<F: FontBackend>(&mut self, font: &F) -> (res: Result<(), GlyphCacheError>)
        requires
            old(self).wf(),
        ensures
            final(self).wf(),
            exists|glyphs: Seq<GlyphBitmapView>|
                #![auto]
                glyphs.len() == old(self)@.grid.cells.len() && final(self)@.grid.cache
                    == after_requests(
                    old(self)@.grid.cache,
                    cell_chars(old(self)@.grid.cells),
                    glyphs,
                    old(self)@.grid.cells.len(),
                ),
            final(self)@ == (ScreenView {
                grid: GridView {
                    texture_coordinate: uv_attributes(
                        old(self)@.grid.cells,
                        final(self)@.grid.cache.layouts,
                    ),
                    fg_color: fg_attributes(old(self)@.grid.cells),
                    bg_color: bg_attributes(old(self)@.grid.cells),
                    cache: final(self)@.grid.cache,
                    ..old(self)@.grid
                },
                ..old(self)@
            }),
            res is Ok <==> forall|i: int|
                0 <= i < old(self)@.grid.cells.len() ==> final(self)@.grid.cache.layouts.contains_key(
                    #[trigger] old(self)@.grid.cells[i].char,
                ),
    {
        self.grid.draw(font)
    }

    /// Says whether the atlas bitmap has changed since this was last asked,
    /// and marks it as handed out.
    pub fn update_texture(&mut self) -> (upload: bool)
        requires
            old(self).wf(),
        ensures
            final(self).wf(),
            upload == old(self)@.grid.cache.dirty,
            final(self)@ == (ScreenView {
                grid: GridView {
                    cache: CacheView { dirty: false, ..old(self)@.grid.cache },
                    ..old(self)@.grid
                },
                ..old(self)@
            }),
    {
        self.grid.update_texture()
    }

    /// The banner that shows an error's message, where there can be one.
    fn make_banner(&self, message: &String) -> (made: Option<UiText>)
        requires
            self.wf(),
        ensures
            match banner(message@, self@.grid.width, self@.grid.height) {
                Some(v) => made is Some && made->Some_0@ == v && made->Some_0.wf(),
                None => made is None,
            },
    {
        let len = message.as_str().unicode_len();
        let height: i64 = self.grid.height() as i64;
        let row: i64 = height - 1 - (height * 85) / 100;
        if len > i32::MAX as usize || row > i32::MAX as i64 {
            return None;
        }
        let x: i64 = self.grid.width() as i64 / 2 - len as i64 / 2;
        let pos = Vector2 { x: x as i32, y: row as i32 };
        let size = Vector2 { x: len as i32, y: 1 };
        match UiText::new(escape_markup(message.as_str()), pos, size) {
            Ok(mut element) => {
                element.set_fg_color(RGBA8 { r: 255, g: 0, b: 0, a: 255 });
                element.set_box_drawing(true, BoxDrawing::Double);
                Some(element)
            },
            Err(_) => None,
        }
    }

    /// Carries out one action.
    pub fn perform_action(&mut self, action: UiAction)
        requires
            old(self).wf(),
        ensures
            final(self).wf(),
            final(self)@ == performed(old(self)@, action@),
    {
        match action {
            UiAction::AddUiText(text, pos, size) => {
                match UiText::new(text, pos, size) {
                    Ok(ui_text) => {
                        self.add_element(UiElement::Text(ui_text));
                    },
                    Err(error) => {
                        self.push_action(UiAction::WriteError(error));
                    },
                }
            },
            UiAction::WriteError(error) => {
                match error {
                    UiError::Error(text) => {
                        match self.make_banner(&text) {
                            Some(banner) => {
                                self.add_element(UiElement::Text(banner));
                            },
                            None => {},
                        }
                    },
                }
            },
        }
    }

    /// Carries out every action of the queue, the oldest first, those
    /// included that are put behind them meanwhile.
    pub fn drain_actions(&mut self)
        requires
            old(self).wf(),
        ensures
            final(self).wf(),
            final(self)@ == drained(old(self)@),
            final(self)@.queue.len() == 0,
    {
        loop
            invariant
                self.wf(),
                drained(self@) == drained(old(self)@),
            ensures
                self.wf(),
                self@ == drained(old(self)@),
                self@.queue.len() == 0,
            decreases queue_weight(self@.queue),
        {
            let ghost before = self@;
            match self.action_queue.pop_front() {
                Some(action) => {
                    proof {
                        assert(action_views(self.action_queue@) =~= before.queue.drop_first());
                        assert(action@ == before.queue[0]);
                        lemma_performed_weighs_less(before);
                    }
                    self.perform_action(action);
                },
                None => {
                    break ;
                },
            }
        }
    }

    /// A frame's update: the grid is cleared; each element in turn is
    /// updated and drawn, and an update that fails leaves its error in the
    /// queue; then the queue is drained.
    pub fn update<U: UpdateFunction>(&mut self, app: &Application, update_function: &U)
        requires
            old(self).wf(),
        ensures
            final(self).wf(),
            final(self)@.queue.len() == 0,
            exists|refreshes: Seq<Refresh>|
                #![auto]
                refreshes.len() == old(self)@.elements.len() && final(self)@ == drained(
                    walked(old(self)@, *app, refreshes, old(self)@.elements.len()),
                ),
    {
        let ghost before = self@;
        let ghost mut refreshes: Seq<Refresh> = Seq::empty();
        self.grid.clear();
        let n = self.ui_elements.len();
        let mut i: usize = 0;
        while i < n
            invariant
                i <= n,
                n == self.ui_elements@.len(),
                n == before.elements.len(),
                self.wf(),
                refreshes.len() == i,
                self@ == walked(before, *app, refreshes, i as nat),
            decreases n - i,
        {
            let ghost earlier = self@;
            let ghost queue_before = action_views(self.action_queue@);
            let ghost element_before = self.ui_elements@[i as int]@;
            let res = self.ui_elements[i].update(
                app,
                &self.grid,
                &mut self.action_queue,
                update_function,
            );
            let ghost refresh = choose|refresh: Refresh|
                #![auto]
                {
                    &&& self.ui_elements@[i as int]@ == element_updated(element_before, refresh, *app)
                    &&& action_views(self.action_queue@) == enqueued(
                        queue_before,
                        text_action(element_text(element_before), refresh, *app),
                    )
                    &&& match element_error(element_before, refresh) {
                        None => res is Ok,
                        Some(message) => res is Err && res->Err_0@ == message,
                    }
                };
            match res {
                Ok(()) => {},
                Err(e) => {
                    proof {
                        let error = UiAction::WriteError(e);
                        assert(action_views(self.action_queue@.push(error)) =~= action_views(
                            self.action_queue@,
                        ).push(error@));
                    }
                    self.action_queue.push_back(UiAction::WriteError(e));
                },
            }
            let _ = self.ui_elements[i].draw(&mut self.grid);
            proof {
                let longer = refreshes.push(refresh);
                lemma_walked_extends(before, *app, refreshes, longer, i as nat);
                refreshes = longer;
                assert(self@.elements =~= earlier.elements.update(
                    i as int,
                    element_updated(element_before, refresh, *app),
                ));
                assert(self@ == element_step(earlier, i as int, refresh, *app));
            }
            i += 1;
        }
        self.drain_actions();
    }
}

} // verus!
