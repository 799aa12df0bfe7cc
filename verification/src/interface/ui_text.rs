use crate::application::Application;
use crate::interface::box_drawing::BoxDrawing;
use crate::interface::ui_action::{action_views, UiAction, UiActionView};
use crate::interface::ui_error::UiError;
use crate::interface::word::{
    extent_x, extent_y, layout, lemma_layout_unlit, out_of_range_message, views, Word, WordView,
};
use crate::render::grid::{
    painted, rect_between, written, CellOp, Grid, GridView, Rect,
};
use crate::render::quad::Quad;
use crate::util::rgba8::RGBA8;
use crate::util::vector::Vector2;
use std::collections::VecDeque;
use vstd::prelude::*;

verus! {

/// What a [`UiText`] holds.
pub struct UiTextView {
    pub id: u64,
    pub text: Seq<char>,
    pub words: Seq<WordView>,
    /// The place of the first character: the top left corner of the box.
    pub pos: Vector2,
    pub size: Vector2,
    /// The extent of the words, which may be more than the box holds.
    pub max_size: Vector2,
    /// By how much the words are moved before they are drawn.
    pub offset: Vector2,
    pub fg_color: RGBA8,
    pub bg_color: RGBA8,
    pub box_around: bool,
    pub box_type: BoxDrawing,
    pub is_highlighted: bool,
    pub highlight_on_hover: bool,
    pub highlight_word: bool,
    pub auto_scroll: bool,
    /// The actions that the words can ask for, by their number.
    pub actions: Seq<UiActionView>,
}

/// A box of text on the grid. Its words are laid out from its top left
/// corner; one of them can be lit under the pointer and can ask for an action
/// when it is clicked.
#[derive(Debug)]
pub struct UiText {
    id: u64,
    text: String,
    words: Vec<Word>,
    pos: Vector2,
    size: Vector2,
    max_size: Vector2,
    offset: Vector2,
    fg_color: RGBA8,
    bg_color: RGBA8,
    box_around: bool,
    box_type: BoxDrawing,
    is_highlighted: bool,
    highlight_on_hover: bool,
    highlight_word: bool,
    auto_scroll: bool,
    actions: Vec<UiAction>,
}

impl View for UiText {
    type V = UiTextView;

    closed spec fn view(&self) -> UiTextView {
        UiTextView {
            id: self.id,
            text: self.text@,
            words: views(self.words@),
            pos: self.pos,
            size: self.size,
            max_size: self.max_size,
            offset: self.offset,
            fg_color: self.fg_color,
            bg_color: self.bg_color,
            box_around: self.box_around,
            box_type: self.box_type,
            is_highlighted: self.is_highlighted,
            highlight_on_hover: self.highlight_on_hover,
            highlight_word: self.highlight_word,
            auto_scroll: self.auto_scroll,
            actions: action_views(self.actions@),
        }
    }
}

/// What the per-frame callback of a text element says.
pub enum Refresh {
    /// The text stays.
    Keep,
    /// The text is replaced.
    Replace(Seq<char>),
    /// The callback failed, with this message.
    Fail(Seq<char>),
}

/// What the result of a per-frame callback says.
pub open spec fn refresh_of(outcome: Result<Option<String>, UiError>) -> Refresh {
    match outcome {
        Ok(None) => Refresh::Keep,
        Ok(Some(text)) => Refresh::Replace(text@),
        Err(error) => Refresh::Fail(error@),
    }
}

/// The per-frame callback of the text elements: given the element, the
/// application's state and the grid, it says whether the element's text is
/// to change, and to what.
pub trait UpdateFunction {
    fn call(&self, ui_text: &UiText, app: &Application, grid: &Grid) -> Result<
        Option<String>,
        UiError,
    >;
}

/// The word `w` with its light off.
pub open spec fn unlit(w: WordView) -> WordView {
    WordView { highlight: false, ..w }
}

/// The word `w` with its light on or off.
pub open spec fn lit(w: WordView, on: bool) -> WordView {
    WordView { highlight: on, ..w }
}

/// The words with their lights off.
pub open spec fn all_unlit(words: Seq<WordView>) -> Seq<WordView> {
    Seq::new(words.len(), |i: int| unlit(words[i]))
}

/// Boxes whose bottom row is in the range of `i32`.
pub open spec fn geometry_fits(pos: Vector2, size: Vector2) -> bool {
    i32::MIN <= pos.y - size.y + 1 <= i32::MAX
}

/// The words are those of the text, laid out in the box, whatever their
/// lights; the extent is theirs; the bottom row of the box is in range.
pub open spec fn text_wf(v: UiTextView) -> bool {
    &&& geometry_fits(v.pos, v.size)
    &&& layout(v.text, v.pos, v.size) is Ok
    &&& all_unlit(v.words) == layout(v.text, v.pos, v.size)->Ok_0
    &&& v.max_size.x == extent_x(all_unlit(v.words), v.pos)
    &&& v.max_size.y == extent_y(all_unlit(v.words), v.pos)
}

/// The element that is made of a text, a position and a size: white on
/// black, without a box, with nothing lit, lighting the word under the
/// pointer, not scrolling, with no action; or the message of the error that
/// the text raises. A box whose bottom row is out of range is an error too.
pub open spec fn new_text(text: Seq<char>, pos: Vector2, size: Vector2) -> Result<
    UiTextView,
    Seq<char>,
> {
    if !geometry_fits(pos, size) {
        Err(out_of_range_message())
    } else {
        match layout(text, pos, size) {
            Ok(words) => Ok(
                UiTextView {
                    id: 0,
                    text,
                    words,
                    pos,
                    size,
                    max_size: Vector2 {
                        x: extent_x(words, pos) as i32,
                        y: extent_y(words, pos) as i32,
                    },
                    offset: Vector2 { x: 0, y: 0 },
                    fg_color: RGBA8 { r: 255, g: 255, b: 255, a: 255 },
                    bg_color: RGBA8 { r: 0, g: 0, b: 0, a: 255 },
                    box_around: false,
                    box_type: BoxDrawing::Light,
                    is_highlighted: false,
                    highlight_on_hover: false,
                    highlight_word: true,
                    auto_scroll: false,
                    actions: Seq::empty(),
                },
            ),
            Err(message) => Err(message),
        }
    }
}

/// The element after its text is replaced: the words and their extent are
/// those of the new text. A text that raises an error leaves the element
/// as it is, and the error's message is the result.
pub open spec fn with_text(v: UiTextView, text: Seq<char>) -> Result<UiTextView, Seq<char>> {
    match layout(text, v.pos, v.size) {
        Ok(words) => Ok(
            UiTextView {
                text,
                words,
                max_size: Vector2 {
                    x: extent_x(words, v.pos) as i32,
                    y: extent_y(words, v.pos) as i32,
                },
                ..v
            },
        ),
        Err(message) => Err(message),
    }
}

/// The rectangle that the element paints in its colours: the box of the
/// text and, where it has an outline, one cell more on each side.
pub open spec fn frame_rect(v: UiTextView) -> Rect {
    let margin: int = if v.box_around { 1 } else { 0 };
    Rect {
        left: v.pos.x - margin,
        bottom: v.pos.y - v.size.y + 1 - margin,
        right: v.pos.x + v.size.x + margin,
        top: v.pos.y + 1 + margin,
    }
}

/// The rectangle whose outline is drawn around the box of the text.
pub open spec fn outline_rect(v: UiTextView) -> Rect {
    rect_between(v.pos.x - 1, v.pos.y - v.size.y, v.pos.x + v.size.x, v.pos.y + 1)
}

/// Whether a word lies, before it is moved, in the rows that the box shows.
pub open spec fn word_shown(v: UiTextView, w: WordView) -> bool {
    v.pos.y - v.size.y + 1 - v.offset.y <= w.pos.y <= v.pos.y - v.offset.y
}

/// The rectangle of the cells that a word covers once it is moved.
pub open spec fn word_rect(v: UiTextView, w: WordView) -> Rect {
    Rect {
        left: w.pos.x + v.offset.x,
        bottom: w.pos.y + v.offset.y,
        right: w.pos.x + v.offset.x + w.text.len(),
        top: w.pos.y + v.offset.y + 1,
    }
}

/// The cells after one word is drawn: a word that is shown is written at its
/// place, then painted in its own colour if it has one, then inverted if it
/// is lit.
pub open spec fn word_drawn(cells: Seq<Quad>, width: int, v: UiTextView, w: WordView) -> Seq<
    Quad,
> {
    if !word_shown(v, w) {
        cells
    } else {
        let r = word_rect(v, w);
        let text = written(cells, width, r.left, r.bottom, w.text);
        let colored = match w.fg_color {
            Some(color) => painted(text, width, r, CellOp::Fg(color)),
            None => text,
        };
        if w.highlight {
            painted(colored, width, r, CellOp::Inverse)
        } else {
            colored
        }
    }
}

/// The cells after the first `k` words are drawn, in order.
pub open spec fn words_drawn(cells: Seq<Quad>, width: int, v: UiTextView, k: nat) -> Seq<Quad>
    decreases k,
{
    if k == 0 {
        cells
    } else {
        word_drawn(words_drawn(cells, width, v, (k - 1) as nat), width, v, v.words[k - 1])
    }
}

/// The cells after the element is drawn: its frame is painted in its
/// colours, its words are drawn, then its outline if it has one, and the
/// frame is inverted if the element is lit.
pub open spec fn text_drawn(cells: Seq<Quad>, width: int, v: UiTextView) -> Seq<Quad> {
    let frame = frame_rect(v);
    let ground = painted(
        painted(cells, width, frame, CellOp::Fg(v.fg_color)),
        width,
        frame,
        CellOp::Bg(v.bg_color),
    );
    let words = words_drawn(ground, width, v, v.words.len());
    let boxed = if v.box_around {
        painted(words, width, outline_rect(v), CellOp::Outline(v.box_type))
    } else {
        words
    };
    if v.is_highlighted {
        painted(boxed, width, frame, CellOp::Inverse)
    } else {
        boxed
    }
}

/// Whether the cell at `p` lies in the box of the text.
pub open spec fn text_contains(v: UiTextView, p: Vector2) -> bool {
    &&& v.pos.x <= p.x < v.pos.x + v.size.x
    &&& v.pos.y - v.size.y < p.y <= v.pos.y
}

/// Whether the cell at `p` is one of those where a word was laid out.
pub open spec fn word_hit(w: WordView, p: Vector2) -> bool {
    w.pos.x <= p.x < w.pos.x + w.text.len() && w.pos.y == p.y
}

/// The number of the last word that was laid out over the cell at `p`.
pub open spec fn hovered_word(words: Seq<WordView>, p: Vector2) -> Option<int>
    decreases words.len(),
{
    if words.len() == 0 {
        None
    } else if word_hit(words.last(), p) {
        Some(words.len() - 1)
    } else {
        hovered_word(words.drop_last(), p)
    }
}

/// The scroll offset one frame later: one row further, and back to the
/// first row after the last.
pub open spec fn scrolled(offset: int, rows: int) -> int {
    if rows > 0 {
        (offset + 1) % rows
    } else {
        offset
    }
}

/// The element at the start of a frame: nothing is lit, and an element
/// that scrolls has moved on by one row.
pub open spec fn settled(v: UiTextView) -> UiTextView {
    UiTextView {
        is_highlighted: false,
        offset: Vector2 {
            x: v.offset.x,
            y: if v.auto_scroll {
                scrolled(v.offset.y as int, v.max_size.y as int) as i32
            } else {
                v.offset.y
            },
        },
        words: all_unlit(v.words),
        ..v
    }
}

/// The element with the pointer at `p`: under the pointer the element is
/// lit if it is set to be, and so is the word there.
pub open spec fn hovered(v: UiTextView, p: Vector2) -> UiTextView {
    if !text_contains(v, p) {
        v
    } else {
        UiTextView {
            is_highlighted: v.highlight_on_hover,
            words: match hovered_word(v.words, p) {
                Some(i) => v.words.update(i, lit(v.words[i], v.highlight_word)),
                None => v.words,
            },
            ..v
        }
    }
}

/// The action that a click asks for: that of the word under the pointer,
/// if the pointer is in the box, the left button has just gone down, the
/// word names an action and the element has one of that number.
pub open spec fn clicked(v: UiTextView, app: Application) -> Option<UiActionView> {
    if text_contains(v, app.grid_position) && app.mouse_left == 1 {
        match hovered_word(v.words, app.grid_position) {
            Some(i) => match v.words[i].action {
                Some(a) => if 0 <= a < v.actions.len() {
                    Some(v.actions[a as int])
                } else {
                    None
                },
                None => None,
            },
            None => None,
        }
    } else {
        None
    }
}

/// The element after the callback has spoken: it has its new text, if any.
/// A callback that fails, or a new text that raises an error, leaves the
/// element as it is and gives the message.
pub open spec fn refreshed(v: UiTextView, refresh: Refresh) -> Result<UiTextView, Seq<char>> {
    match refresh {
        Refresh::Keep => Ok(v),
        Refresh::Replace(text) => with_text(v, text),
        Refresh::Fail(message) => Err(message),
    }
}

/// The element after a frame's update, or as it was if the update failed.
pub open spec fn text_updated(v: UiTextView, refresh: Refresh, app: Application) -> UiTextView {
    match refreshed(v, refresh) {
        Ok(fresh) => hovered(settled(fresh), app.grid_position),
        Err(_) => v,
    }
}

/// The action that a frame's update asks for, if any.
pub open spec fn text_action(v: UiTextView, refresh: Refresh, app: Application) -> Option<
    UiActionView,
> {
    match refreshed(v, refresh) {
        Ok(fresh) => clicked(settled(fresh), app),
        Err(_) => None,
    }
}

/// The queue with the action, if there is one, at its end.
pub open spec fn enqueued(queue: Seq<UiActionView>, action: Option<UiActionView>) -> Seq<
    UiActionView,
> {
    match action {
        Some(a) => queue.push(a),
        None => queue,
    }
}

/// Turning lights on or off leaves the words, lights apart, as they are.
proof fn lemma_unlit_again(words: Seq<WordView>)
    ensures
        all_unlit(all_unlit(words)) == all_unlit(words),
{
    assert(all_unlit(all_unlit(words)) =~= all_unlit(words));
}

/// Lighting one word leaves the words, lights apart, as they are.
proof fn lemma_unlit_update(words: Seq<WordView>, i: int, on: bool)
    requires
        0 <= i < words.len(),
    ensures
        all_unlit(words.update(i, lit(words[i], on))) == all_unlit(words),
{
    assert(all_unlit(words.update(i, lit(words[i], on))) =~= all_unlit(words));
}

/// The last word that was laid out over the cell, if any, is one of the words.
proof fn lemma_hovered_word_in_range(words: Seq<WordView>, p: Vector2)
    ensures
        hovered_word(words, p) is Some ==> 0 <= hovered_word(words, p)->Some_0 < words.len(),
    decreases words.len(),
{
    if words.len() > 0 && !word_hit(words.last(), p) {
        lemma_hovered_word_in_range(words.drop_last(), p);
    }
}

/// The scroll offset one frame later.
fn scroll(offset: i32, rows: i32) -> (next: i32)
    ensures
        next == scrolled(offset as int, rows as int),
{
    if rows <= 0 {
        return offset;
    }
    let m: i64 = rows as i64;
    let o: i64 = offset as i64 + 1;
    if o >= 0 {
        (o % m) as i32
    } else {
        let a: i64 = -o;
        let q: i64 = a % m;
        let r: i64 = if q == 0 { 0 } else { m - q };
        proof {
            let d = a / m;
            assert(a == d * m + q && 0 <= q < m) by (nonlinear_arith)
                requires
                    d == a / m,
                    q == a % m,
                    m > 0,
            ;
            if q == 0 {
                assert(o == (-d) * m + 0) by (nonlinear_arith)
                    requires
                        o == -a,
                        a == d * m + q,
                        q == 0,
                ;
                vstd::arithmetic::div_mod::lemma_fundamental_div_mod_converse(
                    o as int,
                    m as int,
                    -d,
                    0,
                );
            } else {
                assert(o == (-d - 1) * m + (m - q)) by (nonlinear_arith)
                    requires
                        o == -a,
                        a == d * m + q,
                ;
                vstd::arithmetic::div_mod::lemma_fundamental_div_mod_converse(
                    o as int,
                    m as int,
                    -d - 1,
                    m - q,
                );
            }
        }
        r as i32
    }
}

/// The words with their lights off.
fn unlight(words: &mut Vec<Word>)
    ensures
        views(final(words)@) == all_unlit(views(old(words)@)),
{
    let mut i: usize = 0;
    while i < words.len()
        invariant
            i <= words@.len(),
            words@.len() == old(words)@.len(),
            forall|k: int|
                0 <= k < words@.len() ==> #[trigger] words@[k]@ == (if k < i {
                    unlit(old(words)@[k]@)
                } else {
                    old(words)@[k]@
                }),
        decreases words@.len() - i,
    {
        let ghost earlier = words@;
        words[i].highlight = false;
        proof {
            assert(words@.len() == earlier.len());
            assert(words@[i as int]@ == unlit(earlier[i as int]@));
            assert forall|k: int| 0 <= k < words@.len() && k != i implies words@[k]
                == earlier[k] by {}
        }
        i += 1;
    }
    proof {
        assert(views(words@) =~= all_unlit(views(old(words)@)));
    }
}

/// The number of the last word that was laid out over the cell at `p`.
fn find_hovered_word(words: &Vec<Word>, p: Vector2) -> (found: Option<usize>)
    ensures
        found is Some <==> hovered_word(views(words@), p) is Some,
        found is Some ==> found->Some_0 == hovered_word(views(words@), p)->Some_0,
        found is Some ==> found->Some_0 < words@.len(),
{
    let mut found: Option<usize> = None;
    let mut i: usize = 0;
    while i < words.len()
        invariant
            i <= words@.len(),
            found is Some <==> hovered_word(views(words@).take(i as int), p) is Some,
            found is Some ==> found->Some_0 == hovered_word(
                views(words@).take(i as int),
                p,
            )->Some_0,
            found is Some ==> found->Some_0 < i,
        decreases words@.len() - i,
    {
        let len = words[i].text.as_str().unicode_len();
        let start: i128 = words[i].pos.x as i128;
        let hit = start <= p.x as i128 && (p.x as i128) < start + len as i128 && words[i].pos.y
            == p.y;
        proof {
            let longer = views(words@).take(i + 1);
            assert(longer.drop_last() =~= views(words@).take(i as int));
            assert(longer.last() == words@[i as int]@);
        }
        if hit {
            found = Some(i);
        }
        i += 1;
    }
    proof {
        assert(views(words@).take(i as int) =~= views(words@));
    }
    found
}

impl UiText {
    /// The words are those of the text, laid out in the box.
    pub open spec fn wf(&self) -> bool {
        text_wf(self@)
    }

    /// Makes a text element out of a text with markup, the place of its
    /// first character and the size of its box.
    pub fn new(text: String, pos: Vector2, size: Vector2) -> (res: Result<UiText, UiError>)
        ensures
            match new_text(text@, pos, size) {
                Ok(v) => res is Ok && res->Ok_0@ == v && res->Ok_0.wf(),
                Err(message) => res is Err && res->Err_0@ == message,
            },
    {
        let bottom: i64 = pos.y as i64 - size.y as i64 + 1;
        if bottom < i32::MIN as i64 || bottom > i32::MAX as i64 {
            return Err(UiError::Error("layout out of range".to_owned()));
        }
        match Word::get_word_vec_and_max_size(&text, pos, size) {
            Ok((words, max_size)) => {
                let ui_text = UiText {
                    id: 0,
                    text,
                    words,
                    pos,
                    size,
                    max_size,
                    offset: Vector2 { x: 0, y: 0 },
                    fg_color: RGBA8 { r: 255, g: 255, b: 255, a: 255 },
                    bg_color: RGBA8 { r: 0, g: 0, b: 0, a: 255 },
                    box_around: false,
                    box_type: BoxDrawing::Light,
                    is_highlighted: false,
                    highlight_on_hover: false,
                    highlight_word: true,
                    auto_scroll: false,
                    actions: Vec::new(),
                };
                proof {
                    lemma_layout_unlit(text@, pos, size);
                    assert(all_unlit(ui_text@.words) =~= ui_text@.words);
                    assert(ui_text@.actions =~= Seq::<UiActionView>::empty());
                }
                Ok(ui_text)
            },
            Err(e) => Err(e),
        }
    }

    /// Replaces the text and lays it out anew. A text that raises an error
    /// leaves the element as it is.
    pub fn set_text(&mut self, text: String) -> (res: Result<(), UiError>)
        requires
            old(self).wf(),
        ensures
            final(self).wf(),
            match with_text(old(self)@, text@) {
                Ok(v) => res is Ok && final(self)@ == v,
                Err(message) => res is Err && res->Err_0@ == message && final(self)@ == old(
                    self,
                )@,
            },
    {
        match Word::get_word_vec_and_max_size(&text, self.pos, self.size) {
            Ok((words, max_size)) => {
                proof {
                    lemma_layout_unlit(text@, self.pos, self.size);
                    assert(all_unlit(views(words@)) =~= views(words@));
                }
                self.text = text;
                self.words = words;
                self.max_size = max_size;
                Ok(())
            },
            Err(e) => Err(e),
        }
    }

    /// Says whether the box is outlined, and in which style.
    pub fn set_box_drawing(&mut self, enable: bool, box_type: BoxDrawing)
        ensures
            final(self)@ == (UiTextView { box_around: enable, box_type, ..old(self)@ }),
    {
        self.box_around = enable;
        self.box_type = box_type;
    }

    /// Sets the colour of the text.
    pub fn set_fg_color(&mut self, color: RGBA8)
        ensures
            final(self)@ == (UiTextView { fg_color: color, ..old(self)@ }),
    {
        self.fg_color = color;
    }

    /// Sets the colour of the ground.
    pub fn set_bg_color(&mut self, color: RGBA8)
        ensures
            final(self)@ == (UiTextView { bg_color: color, ..old(self)@ }),
    {
        self.bg_color = color;
    }

    /// Says whether the whole element is lit under the pointer.
    pub fn set_highlight_on_hover(&mut self, enable: bool)
        ensures
            final(self)@ == (UiTextView { highlight_on_hover: enable, ..old(self)@ }),
    {
        self.highlight_on_hover = enable;
    }

    /// Says whether the word under the pointer is lit.
    pub fn set_highlight_word(&mut self, enable: bool)
        ensures
            final(self)@ == (UiTextView { highlight_word: enable, ..old(self)@ }),
    {
        self.highlight_word = enable;
    }

    /// Says whether the words move on by one row with every frame.
    pub fn set_auto_scroll(&mut self, enable: bool)
        ensures
            final(self)@ == (UiTextView { auto_scroll: enable, ..old(self)@ }),
    {
        self.auto_scroll = enable;
    }

    /// Adds an action; the words name it by the number of actions that were
    /// added before it.
    pub fn add_action(&mut self, action: UiAction)
        ensures
            final(self)@ == (UiTextView {
                actions: old(self)@.actions.push(action@),
                ..old(self)@
            }),
    {
        self.actions.push(action);
        proof {
            assert(action_views(self.actions@) =~= action_views(old(self).actions@).push(action@));
        }
    }

    /// The number that the screen gave the element; 0 before it is added.
    pub fn id(&self) -> (id: u64)
        ensures
            id == self@.id,
    {
        self.id
    }

    /// The text, with its markup.
    pub fn text(&self) -> (text: &String)
        ensures
            text@ == self@.text,
    {
        &self.text
    }

    /// The words, as they were laid out and are lit.
    pub fn words(&self) -> (words: &Vec<Word>)
        ensures
            views(words@) == self@.words,
    {
        &self.words
    }

    /// Whether the whole element is lit.
    pub fn is_highlighted(&self) -> (lit: bool)
        ensures
            lit == self@.is_highlighted,
    {
        self.is_highlighted
    }

    pub fn set_id(&mut self, id: u64)
        ensures
            final(self)@ == (UiTextView { id, ..old(self)@ }),
    {
        self.id = id;
    }

    /// The bottom left corner of the box.
    pub fn get_pos(&self) -> (pos: Vector2)
        requires
            self.wf(),
        ensures
            pos.x == self@.pos.x,
            pos.y == self@.pos.y - self@.size.y + 1,
    {
        Vector2 { x: self.pos.x, y: (self.pos.y as i64 - self.size.y as i64 + 1) as i32 }
    }

    /// The place of the first character: the top left corner of the box.
    pub fn get_top_left(&self) -> (pos: Vector2)
        ensures
            pos == self@.pos,
    {
        self.pos
    }

    pub fn get_size(&self) -> (size: Vector2)
        ensures
            size == self@.size,
    {
        self.size
    }

    /// The extent of the words, which may be more than the box holds.
    pub fn get_max_size(&self) -> (size: Vector2)
        ensures
            size == self@.max_size,
    {
        self.max_size
    }

    pub fn get_offset(&self) -> (offset: Vector2)
        ensures
            offset == self@.offset,
    {
        self.offset
    }

    pub fn set_offset(&mut self, offset: Vector2)
        ensures
            final(self)@ == (UiTextView { offset, ..old(self)@ }),
    {
        self.offset = offset;
    }

    /// Whether the pointer is over the box of the text.
    pub fn is_mouse_on_element(&self, app: &Application, _grid: &Grid) -> (on: bool)
        ensures
            on == text_contains(self@, app.grid_position),
    {
        self.is_mouse_on_element_at(app.grid_position)
    }

    /// Carries out a frame's update once the callback has spoken. The
    /// callback's new text, if any, replaces the old; then nothing is lit,
    /// an element that scrolls moves on by one row, and under the pointer
    /// the element and its word are lit as they are set to be. A click on a
    /// word that names one of the element's actions puts a copy of that
    /// action at the end of the queue. When the callback has failed or its
    /// text raises an error, element and queue stay as they are and the
    /// error is returned.
    pub fn apply_update(
        &mut self,
        outcome: Result<Option<String>, UiError>,
        app: &Application,
        action_queue: &mut VecDeque<UiAction>,
    ) -> (res: Result<(), UiError>)
        requires
            old(self).wf(),
        ensures
            final(self).wf(),
            final(self)@ == text_updated(old(self)@, refresh_of(outcome), *app),
            action_views(final(action_queue)@) == enqueued(
                action_views(old(action_queue)@),
                text_action(old(self)@, refresh_of(outcome), *app),
            ),
            match refreshed(old(self)@, refresh_of(outcome)) {
                Ok(_) => res is Ok,
                Err(message) => res is Err && res->Err_0@ == message,
            },
    {
        let ghost before = self@;
        match outcome {
            Ok(None) => {},
            Ok(Some(text)) => {
                match self.set_text(text) {
                    Ok(()) => {},
                    Err(e) => {
                        return Err(e);
                    },
                }
            },
            Err(e) => {
                return Err(e);
            },
        }
        let ghost fresh = self@;
        self.is_highlighted = false;
        if self.auto_scroll {
            self.offset.y = scroll(self.offset.y, self.max_size.y);
        }
        unlight(&mut self.words);
        proof {
            assert(self@ == settled(fresh));
            lemma_unlit_again(fresh.words);
        }
        let ghost calm = self@;
        if self.is_mouse_on_element_at(app.grid_position) {
            if self.highlight_on_hover {
                self.is_highlighted = true;
            }
            let found = find_hovered_word(&self.words, app.grid_position);
            if let Some(i) = found {
                let ghost earlier = self.words@;
                if self.highlight_word {
                    self.words[i].highlight = true;
                }
                proof {
                    assert(self.words@.len() == earlier.len());
                    assert(self.words@[i as int]@ == lit(earlier[i as int]@, self.highlight_word));
                    assert forall|k: int| 0 <= k < earlier.len() && k != i implies self.words@[k]
                        == earlier[k] by {}
                    assert(views(self.words@) =~= calm.words.update(
                        i as int,
                        lit(calm.words[i as int], calm.highlight_word),
                    ));
                    lemma_unlit_update(calm.words, i as int, calm.highlight_word);
                }
                if let Some(action) = self.words[i].action {
                    if app.mouse_left == 1 && action >= 0 && (action as usize) < self.actions.len() {
                        let copy = self.actions[action as usize].clone();
                        proof {
                            assert(action_views(action_queue@.push(copy)) =~= action_views(
                                action_queue@,
                            ).push(copy@));
                        }
                        action_queue.push_back(copy);
                    }
                }
            }
        }
        Ok(())
    }

    /// Updates the element for a frame: asks the callback whether the text
    /// is to change, then goes on as `apply_update` does with its answer.
    pub fn update<U: UpdateFunction>(
        &mut self,
        app: &Application,
        grid: &Grid,
        action_queue: &mut VecDeque<UiAction>,
        update_function: &U,
    ) -> (res: Result<(), UiError>)
        requires
            old(self).wf(),
        ensures
            final(self).wf(),
            exists|refresh: Refresh|
                #![auto]
                {
                    &&& final(self)@ == text_updated(old(self)@, refresh, *app)
                    &&& action_views(final(action_queue)@) == enqueued(
                        action_views(old(action_queue)@),
                        text_action(old(self)@, refresh, *app),
                    )
                    &&& match refreshed(old(self)@, refresh) {
                        Ok(_) => res is Ok,
                        Err(message) => res is Err && res->Err_0@ == message,
                    }
                },
    {
        let outcome = update_function.call(self, app, grid);
        let ghost refresh = refresh_of(outcome);
        let res = self.apply_update(outcome, app, action_queue);
        proof {
            assert(self@ == text_updated(old(self)@, refresh, *app));
        }
        res
    }

    /// Whether the cell at `p` lies in the box of the text.
    fn is_mouse_on_element_at(&self, p: Vector2) -> (on: bool)
        ensures
            on == text_contains(self@, p),
    {
        let x: i64 = p.x as i64;
        let y: i64 = p.y as i64;
        x >= self.pos.x as i64 && x < self.pos.x as i64 + self.size.x as i64 && y
            > self.pos.y as i64 - self.size.y as i64 && y <= self.pos.y as i64
    }

    /// Draws the element onto the grid.
    pub fn draw(&self, grid: &mut Grid) -> (res: Result<(), UiError>)
        requires
            old(grid).wf(),
        ensures
            final(grid).wf(),
            res is Ok,
            final(grid)@ == (GridView {
                cells: text_drawn(old(grid)@.cells, old(grid)@.width as int, self@),
                ..old(grid)@
            }),
    {
        let ghost v = self@;
        let ghost before = grid@;
        let ghost width = before.width as int;
        let margin: i128 = if self.box_around { 1 } else { 0 };
        let left: i128 = self.pos.x as i128 - margin;
        let bottom: i128 = self.pos.y as i128 - self.size.y as i128 + 1 - margin;
        let right: i128 = self.pos.x as i128 + self.size.x as i128 + margin;
        let top: i128 = self.pos.y as i128 + 1 + margin;
        grid.paint(left, bottom, right, top, CellOp::Fg(self.fg_color));
        grid.paint(left, bottom, right, top, CellOp::Bg(self.bg_color));
        let first_row: i128 = self.pos.y as i128 - self.size.y as i128 + 1 - self.offset.y as i128;
        let last_row: i128 = self.pos.y as i128 - self.offset.y as i128;
        let ghost ground = grid@.cells;
        let mut i: usize = 0;
        while i < self.words.len()
            invariant
                i <= self.words@.len(),
                v == self@,
                width == before.width,
                grid.wf(),
                first_row == v.pos.y - v.size.y + 1 - v.offset.y,
                last_row == v.pos.y - v.offset.y,
                grid@ == (GridView { cells: words_drawn(ground, width, v, i as nat), ..before }),
            decreases self.words@.len() - i,
        {
            let row: i128 = self.words[i].pos.y as i128;
            if first_row <= row && row <= last_row {
                let x: i128 = self.words[i].pos.x as i128 + self.offset.x as i128;
                let y: i128 = row + self.offset.y as i128;
                let len = self.words[i].text.as_str().unicode_len();
                grid.write_text(x as i64, y as i64, self.words[i].text.as_str());
                let end: i128 = x + len as i128;
                if let Some(color) = self.words[i].fg_color {
                    grid.paint(x, y, end, y + 1, CellOp::Fg(color));
                }
                if self.words[i].highlight {
                    grid.paint(x, y, end, y + 1, CellOp::Inverse);
                }
            }
            i += 1;
        }
        if self.box_around {
            let ax: i128 = self.pos.x as i128 - 1;
            let ay: i128 = self.pos.y as i128 - self.size.y as i128;
            let bx: i128 = self.pos.x as i128 + self.size.x as i128;
            let by: i128 = self.pos.y as i128 + 1;
            grid.paint(
                if ax <= bx { ax } else { bx },
                if ay <= by { ay } else { by },
                if ax <= bx { bx + 1 } else { ax + 1 },
                if ay <= by { by + 1 } else { ay + 1 },
                CellOp::Outline(self.box_type),
            );
        }
        if self.is_highlighted {
            grid.paint(left, bottom, right, top, CellOp::Inverse);
        }
        Ok(())
    }
}

} // verus!
