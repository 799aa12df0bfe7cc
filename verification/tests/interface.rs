use console_grid::application::Application;
use console_grid::interface::box_drawing::BoxDrawing;
use console_grid::interface::screen::Screen;
use console_grid::interface::ui_action::UiAction;
use console_grid::interface::ui_element::UiElement;
use console_grid::interface::ui_error::UiError;
use console_grid::interface::ui_text::{UiText, UpdateFunction};
use console_grid::interface::ui_viewport::UiViewport;
use console_grid::render::cache_glyph::CacheGlyph;
use console_grid::render::grid::Grid;
use console_grid::util::rgba8::RGBA8;
use console_grid::util::vector::Vector2;
use std::collections::VecDeque;

const WHITE: RGBA8 = RGBA8 { r: 255, g: 255, b: 255, a: 255 };
const BLACK: RGBA8 = RGBA8 { r: 0, g: 0, b: 0, a: 255 };
const RED: RGBA8 = RGBA8 { r: 255, g: 0, b: 0, a: 255 };

struct Still;

impl UpdateFunction for Still {
    fn call(&self, _: &UiText, _: &Application, _: &Grid) -> Result<Option<String>, UiError> {
        Ok(None)
    }
}

struct Clock;

impl UpdateFunction for Clock {
    fn call(&self, t: &UiText, app: &Application, _: &Grid) -> Result<Option<String>, UiError> {
        if t.id() == 0 {
            Ok(Some(format!("{} ms", app.delta_time)))
        } else {
            Ok(None)
        }
    }
}

struct Broken(&'static str);

impl UpdateFunction for Broken {
    fn call(&self, _: &UiText, _: &Application, _: &Grid) -> Result<Option<String>, UiError> {
        Err(UiError::Error(String::from(self.0)))
    }
}

struct Garbled;

impl UpdateFunction for Garbled {
    fn call(&self, _: &UiText, _: &Application, _: &Grid) -> Result<Option<String>, UiError> {
        Ok(Some(String::from("bad `q markup")))
    }
}

fn pointer(x: i32, y: i32, mouse_left: i32) -> Application {
    Application { grid_position: Vector2::new(x, y), mouse_left, delta_time: 16 }
}

fn grid(width: u32, height: u32) -> Grid {
    Grid::with_cache(width, height, CacheGlyph::with_size(16, 16))
}

fn row(grid: &Grid, y: i32) -> String {
    (0..grid.width() as i32).map(|x| grid.get(x, y).unwrap().char).collect()
}

fn text(markup: &str, x: i32, y: i32, w: i32, h: i32) -> UiText {
    UiText::new(String::from(markup), Vector2::new(x, y), Vector2::new(w, h)).unwrap()
}

#[test]
fn new_text_element_has_its_defaults() {
    let t = text("ab cd\nef", 2, 5, 10, 3);
    assert_eq!(t.id(), 0);
    assert_eq!(t.text(), "ab cd\nef");
    assert_eq!(t.words().len(), 3);
    assert_eq!(t.get_top_left(), Vector2::new(2, 5));
    assert_eq!(t.get_pos(), Vector2::new(2, 3));
    assert_eq!(t.get_size(), Vector2::new(10, 3));
    assert_eq!(t.get_max_size(), Vector2::new(5, 2));
    assert_eq!(t.get_offset(), Vector2::new(0, 0));
    assert!(!t.is_highlighted());
}

#[test]
fn new_text_element_passes_on_the_layout_error() {
    let error =
        UiText::new(String::from("`z"), Vector2::new(0, 0), Vector2::new(5, 1)).unwrap_err();
    assert_eq!(error.message(), "invalid flag z at character 1");
    let error = UiText::new(String::from("a"), Vector2::new(0, i32::MIN), Vector2::new(5, 3))
        .unwrap_err();
    assert_eq!(error.message(), "layout out of range");
}

#[test]
fn set_text_lays_out_anew_or_leaves_the_element() {
    let mut t = text("one", 0, 0, 10, 1);
    assert!(t.set_text(String::from("two three")).is_ok());
    assert_eq!(t.text(), "two three");
    assert_eq!(t.words().len(), 2);
    assert_eq!(t.get_max_size(), Vector2::new(9, 1));
    let error = t.set_text(String::from("four `kx")).unwrap_err();
    assert_eq!(error.message(), "invalid clear flag x at character 7");
    assert_eq!(t.text(), "two three");
    assert_eq!(t.words().len(), 2);
}

#[test]
fn draw_paints_the_frame_and_writes_the_words() {
    let mut g = grid(12, 6);
    let mut t = text("hi `c00ff00you", 2, 4, 6, 2);
    t.set_fg_color(RED);
    t.set_bg_color(RGBA8::new(9, 9, 9, 255));
    assert!(t.draw(&mut g).is_ok());
    assert_eq!(row(&g, 4), "  hi you    ");
    assert_eq!(row(&g, 3), "            ");
    assert_eq!(g.get(2, 4).unwrap().fg_color, RED);
    assert_eq!(g.get(5, 4).unwrap().fg_color, RGBA8::new(0, 255, 0, 255));
    assert_eq!(g.get(7, 3).unwrap().fg_color, RED);
    assert_eq!(g.get(7, 3).unwrap().bg_color, RGBA8::new(9, 9, 9, 255));
    assert_eq!(g.get(8, 4).unwrap().fg_color, WHITE);
    assert_eq!(g.get(1, 4).unwrap().bg_color, BLACK);
    assert_eq!(g.get(2, 2).unwrap().fg_color, WHITE);
    assert_eq!(g.get(2, 5).unwrap().fg_color, WHITE);
}

#[test]
fn draw_outlines_the_box_around_the_text() {
    let mut g = grid(10, 6);
    let mut t = text("ab\ncd", 3, 3, 4, 2);
    t.set_box_drawing(true, BoxDrawing::Arc);
    t.draw(&mut g).unwrap();
    assert_eq!(row(&g, 4), "  \u{256d}\u{2500}\u{2500}\u{2500}\u{2500}\u{256e}  ");
    assert_eq!(row(&g, 3), "  \u{2502}ab  \u{2502}  ");
    assert_eq!(row(&g, 2), "  \u{2502}cd  \u{2502}  ");
    assert_eq!(row(&g, 1), "  \u{2570}\u{2500}\u{2500}\u{2500}\u{2500}\u{256f}  ");
    assert_eq!(row(&g, 0), "          ");
}

#[test]
fn draw_skips_the_rows_that_the_box_does_not_show() {
    let mut g = grid(6, 6);
    let mut t = text("a\nb\nc\nd", 0, 4, 3, 2);
    t.draw(&mut g).unwrap();
    assert_eq!(row(&g, 4), "a     ");
    assert_eq!(row(&g, 3), "b     ");
    assert_eq!(row(&g, 2), "      ");
    let mut g = grid(6, 6);
    t.set_offset(Vector2::new(1, 2));
    t.draw(&mut g).unwrap();
    assert_eq!(row(&g, 4), " c    ");
    assert_eq!(row(&g, 3), " d    ");
    assert_eq!(row(&g, 5), "      ");
    assert_eq!(row(&g, 2), "      ");
}

#[test]
fn pointer_is_on_the_element_inside_its_box_only() {
    let g = grid(10, 10);
    let t = text("x", 2, 5, 3, 2);
    let on = |x: i32, y: i32| t.is_mouse_on_element(&pointer(x, y, 0), &g);
    assert!(on(2, 5));
    assert!(on(4, 4));
    assert!(!on(5, 5));
    assert!(!on(1, 5));
    assert!(!on(2, 6));
    assert!(!on(2, 3));
}

#[test]
fn hover_lights_the_word_and_the_element_as_they_are_set() {
    let g = grid(20, 5);
    let mut queue = VecDeque::new();
    let mut t = text("alpha beta", 1, 2, 12, 1);
    t.update(&pointer(8, 2, 0), &g, &mut queue, &Still).unwrap();
    assert!(!t.words()[0].highlight);
    assert!(t.words()[1].highlight);
    assert!(!t.is_highlighted());
    t.set_highlight_on_hover(true);
    t.set_highlight_word(false);
    t.update(&pointer(8, 2, 0), &g, &mut queue, &Still).unwrap();
    assert!(!t.words()[1].highlight);
    assert!(t.is_highlighted());
    t.update(&pointer(0, 0, 0), &g, &mut queue, &Still).unwrap();
    assert!(!t.is_highlighted());
    assert!(queue.is_empty());
}

#[test]
fn lit_word_and_lit_element_are_drawn_inverted() {
    let g0 = grid(8, 3);
    let mut queue = VecDeque::new();
    let mut t = text("ab cd", 0, 1, 6, 1);
    t.update(&pointer(3, 1, 0), &g0, &mut queue, &Still).unwrap();
    let mut g = grid(8, 3);
    t.draw(&mut g).unwrap();
    assert_eq!(g.get(3, 1).unwrap().fg_color, BLACK);
    assert_eq!(g.get(3, 1).unwrap().bg_color, WHITE);
    assert_eq!(g.get(4, 1).unwrap().bg_color, WHITE);
    assert_eq!(g.get(0, 1).unwrap().bg_color, BLACK);
    assert_eq!(g.get(5, 1).unwrap().bg_color, BLACK);
    t.set_highlight_on_hover(true);
    t.update(&pointer(5, 1, 0), &g0, &mut queue, &Still).unwrap();
    let mut g = grid(8, 3);
    t.draw(&mut g).unwrap();
    assert_eq!(g.get(0, 1).unwrap().bg_color, WHITE);
    assert_eq!(g.get(5, 1).unwrap().bg_color, WHITE);
    assert_eq!(g.get(6, 1).unwrap().bg_color, BLACK);
}

#[test]
fn click_on_a_word_queues_a_copy_of_its_action() {
    let g = grid(20, 5);
    let mut queue = VecDeque::new();
    let mut t = text("plain `l1 link", 0, 0, 20, 1);
    t.add_action(UiAction::WriteError(UiError::Error(String::from("zero"))));
    t.add_action(UiAction::AddUiText(String::from("one"), Vector2::new(1, 2), Vector2::new(3, 4)));
    t.update(&pointer(7, 0, 0), &g, &mut queue, &Still).unwrap();
    assert!(queue.is_empty());
    t.update(&pointer(1, 0, 1), &g, &mut queue, &Still).unwrap();
    assert!(queue.is_empty());
    t.update(&pointer(7, 0, 2), &g, &mut queue, &Still).unwrap();
    assert!(queue.is_empty());
    t.update(&pointer(7, 0, 1), &g, &mut queue, &Still).unwrap();
    assert_eq!(queue.len(), 1);
    match queue.pop_front().unwrap() {
        UiAction::AddUiText(s, pos, size) => {
            assert_eq!(s, "one");
            assert_eq!(pos, Vector2::new(1, 2));
            assert_eq!(size, Vector2::new(3, 4));
        }
        UiAction::WriteError(_) => panic!("the wrong action was queued"),
    }
}

#[test]
fn click_on_a_word_whose_action_is_not_there_queues_nothing() {
    let g = grid(20, 5);
    let mut queue = VecDeque::new();
    let mut t = text("`l3 link", 0, 0, 20, 1);
    t.add_action(UiAction::WriteError(UiError::Error(String::from("zero"))));
    t.update(&pointer(1, 0, 1), &g, &mut queue, &Still).unwrap();
    assert!(queue.is_empty());
    assert!(t.words()[0].highlight);
}

#[test]
fn callback_replaces_the_text() {
    let g = grid(20, 5);
    let mut queue = VecDeque::new();
    let mut t = text("", 1, 1, 10, 1);
    t.update(&pointer(0, 0, 0), &g, &mut queue, &Clock).unwrap();
    assert_eq!(t.text(), "16 ms");
    assert_eq!(t.words().len(), 2);
}

#[test]
fn failing_callback_leaves_the_element_and_returns_its_error() {
    let g = grid(20, 5);
    let mut queue = VecDeque::new();
    let mut t = text("ab cd", 0, 0, 10, 1);
    t.set_highlight_on_hover(true);
    t.update(&pointer(0, 0, 0), &g, &mut queue, &Still).unwrap();
    assert!(t.is_highlighted());
    let error = t.update(&pointer(9, 9, 0), &g, &mut queue, &Broken("no clock")).unwrap_err();
    assert_eq!(error.message(), "no clock");
    assert!(t.is_highlighted());
    assert!(t.words()[0].highlight);
    let error = t.update(&pointer(9, 9, 0), &g, &mut queue, &Garbled).unwrap_err();
    assert_eq!(error.message(), "invalid flag q at character 5");
    assert_eq!(t.text(), "ab cd");
    assert!(queue.is_empty());
}

#[test]
fn scrolling_element_moves_on_and_wraps() {
    let g = grid(20, 5);
    let mut queue = VecDeque::new();
    let mut t = text("a\nb\nc", 0, 4, 3, 2);
    t.update(&pointer(9, 9, 0), &g, &mut queue, &Still).unwrap();
    assert_eq!(t.get_offset(), Vector2::new(0, 0));
    t.set_auto_scroll(true);
    let mut seen = Vec::new();
    for _ in 0..7 {
        t.update(&pointer(9, 9, 0), &g, &mut queue, &Still).unwrap();
        seen.push(t.get_offset().y);
    }
    assert_eq!(seen, vec![1, 2, 0, 1, 2, 0, 1]);
    t.set_offset(Vector2::new(0, -5));
    t.update(&pointer(9, 9, 0), &g, &mut queue, &Still).unwrap();
    assert_eq!(t.get_offset().y, 2);
    let mut empty = text("", 0, 0, 3, 1);
    empty.set_auto_scroll(true);
    empty.update(&pointer(9, 9, 0), &g, &mut queue, &Still).unwrap();
    assert_eq!(empty.get_offset(), Vector2::new(0, 0));
}

#[test]
fn viewport_draws_a_scrollbar_beside_its_text() {
    let mut g = grid(8, 8);
    let inner = text("a\nb\nc\nd\ne\nf\ng\nh\ni", 1, 6, 3, 5);
    assert_eq!(inner.get_max_size(), Vector2::new(1, 9));
    let mut v = UiViewport::new(inner);
    assert_eq!(v.get_pos(), Vector2::new(1, 2));
    assert_eq!(v.get_size(), Vector2::new(4, 5));
    assert_eq!(v.get_max_size(), Vector2::new(4, 5));
    assert_eq!(v.get_offset(), Vector2::new(0, 0));
    v.set_offset(Vector2::new(3, 3));
    assert_eq!(v.inside_element().get_offset(), Vector2::new(0, 0));
    v.draw(&mut g).unwrap();
    let column: String = (0..8).map(|y| g.get(4, y).unwrap().char).collect();
    assert_eq!(column, "  \u{2592}\u{2592}\u{2592}\u{2592}\u{2588} ");
    assert_eq!(row(&g, 6), " a  \u{2588}   ");
    assert_eq!(row(&g, 2), " e  \u{2592}   ");
    assert_eq!(row(&g, 1), "        ");
    let on = |x: i32, y: i32| v.is_mouse_on_element(&pointer(x, y, 0), &g);
    assert!(on(4, 6));
    assert!(on(1, 2));
    assert!(!on(5, 6));
    assert!(!on(4, 1));
}

#[test]
fn viewport_handle_follows_the_offset() {
    let mut g = grid(8, 8);
    let mut inner = text("a\nb\nc\nd\ne\nf\ng\nh\ni", 1, 6, 3, 5);
    inner.set_offset(Vector2::new(0, 2));
    let v = UiViewport::new(inner);
    v.draw(&mut g).unwrap();
    let column: String = (0..8).map(|y| g.get(4, y).unwrap().char).collect();
    assert_eq!(column, "  \u{2592}\u{2592}\u{2588}\u{2592}\u{2592} ");
}

#[test]
fn elements_are_numbered_in_the_order_they_are_added() {
    let mut screen = Screen::with_grid(grid(20, 10));
    assert_eq!(screen.next_id(), 0);
    screen.add_element(UiElement::Text(text("a", 0, 0, 5, 1)));
    screen.add_element(UiElement::Viewport(UiViewport::new(text("b", 0, 2, 5, 1))));
    screen.add_element(UiElement::Text(text("c", 0, 4, 5, 1)));
    let ids: Vec<u64> = screen.ui_elements().iter().map(|e| e.id()).collect();
    assert_eq!(ids, vec![0, 1, 2]);
    assert_eq!(screen.next_id(), 3);
}

#[test]
fn click_on_a_word_adds_one_element_with_a_fresh_id() {
    let mut screen = Screen::with_grid(grid(40, 12));
    let mut link = text("`l0 more", 2, 8, 10, 1);
    link.add_action(UiAction::AddUiText(
        String::from("Generated by action!"),
        Vector2::new(5, 5),
        Vector2::new(30, 2),
    ));
    screen.add_element(UiElement::Text(link));
    screen.update(&pointer(20, 8, 1), &Still);
    assert_eq!(screen.ui_elements().len(), 1);
    screen.update(&pointer(3, 8, 0), &Still);
    assert_eq!(screen.ui_elements().len(), 1);
    screen.update(&pointer(3, 8, 1), &Still);
    assert_eq!(screen.pending_actions(), 0);
    assert_eq!(screen.ui_elements().len(), 2);
    let ids: Vec<u64> = screen.ui_elements().iter().map(|e| e.id()).collect();
    assert_eq!(ids, vec![0, 1]);
    assert!(ids[1] > ids[0]);
    assert_eq!(screen.next_id(), 2);
    match &screen.ui_elements()[1] {
        UiElement::Text(t) => {
            assert_eq!(t.text(), "Generated by action!");
            assert_eq!(t.get_top_left(), Vector2::new(5, 5));
        }
        UiElement::Viewport(_) => panic!("a text element was asked for"),
    }
    assert_eq!(row(screen.grid(), 8), format!("  more{}", " ".repeat(34)));
    screen.update(&pointer(0, 0, 0), &Still);
    assert_eq!(screen.ui_elements().len(), 2);
    assert!(row(screen.grid(), 5).starts_with("     Generated by action!"));
}

#[test]
fn bad_markup_in_an_action_becomes_one_banner() {
    let mut screen = Screen::with_grid(grid(60, 20));
    screen.push_action(UiAction::AddUiText(
        String::from("oops `kx"),
        Vector2::new(0, 0),
        Vector2::new(10, 1),
    ));
    assert_eq!(screen.pending_actions(), 1);
    screen.drain_actions();
    assert_eq!(screen.pending_actions(), 0);
    assert_eq!(screen.ui_elements().len(), 1);
    let message = "invalid clear flag x at character 7";
    match &screen.ui_elements()[0] {
        UiElement::Text(t) => {
            assert_eq!(t.text(), message);
            assert_eq!(t.get_size(), Vector2::new(35, 1));
            assert_eq!(t.get_top_left(), Vector2::new(30 - 17, 2));
        }
        UiElement::Viewport(_) => panic!("a banner is a text element"),
    }
    screen.update(&pointer(0, 0, 0), &Still);
    let line: Vec<char> = row(screen.grid(), 2).chars().collect();
    assert_eq!(line[13..13 + 35].iter().collect::<String>(), message);
    assert_eq!(line[12], '\u{2551}');
    assert_eq!(line[13 + 35], '\u{2551}');
    assert_eq!(screen.grid().get(13, 2).unwrap().fg_color, RED);
    assert_eq!(screen.grid().get(12, 3).unwrap().char, '\u{2554}');
    assert_eq!(screen.grid().get(13 + 35, 1).unwrap().char, '\u{255d}');
}

#[test]
fn banner_shows_escape_characters_as_they_stand() {
    let mut screen = Screen::with_grid(grid(40, 10));
    screen.perform_action(UiAction::WriteError(UiError::Error(String::from("bad ` flag"))));
    assert_eq!(screen.ui_elements().len(), 1);
    screen.update(&pointer(0, 0, 0), &Still);
    assert!(row(screen.grid(), 1).contains("bad ` flag"));
}

#[test]
fn failing_update_is_shown_as_a_banner_and_the_rest_is_drawn() {
    let mut screen = Screen::with_grid(grid(40, 10));
    screen.add_element(UiElement::Text(text("first", 0, 9, 10, 1)));
    screen.add_element(UiElement::Text(text("second", 0, 7, 10, 1)));
    screen.update(&pointer(0, 0, 0), &Broken("down"));
    assert_eq!(screen.ui_elements().len(), 4);
    assert_eq!(screen.pending_actions(), 0);
    assert!(row(screen.grid(), 9).starts_with("first"));
    assert!(row(screen.grid(), 7).starts_with("second"));
    let ids: Vec<u64> = screen.ui_elements().iter().map(|e| e.id()).collect();
    assert_eq!(ids, vec![0, 1, 2, 3]);
}

#[test]
fn update_clears_the_grid_before_it_draws() {
    let mut screen = Screen::new(8, 2);
    screen.add_element(UiElement::Text(text("", 0, 0, 8, 1)));
    screen.update(&Application { grid_position: Vector2::new(0, 0), mouse_left: 0, delta_time: 123 }, &Clock);
    assert_eq!(row(screen.grid(), 0), "123 ms  ");
    screen.update(&Application { grid_position: Vector2::new(0, 0), mouse_left: 0, delta_time: 7 }, &Clock);
    assert_eq!(row(screen.grid(), 0), "7 ms    ");
    assert!(screen.update_texture());
    assert!(!screen.update_texture());
}

#[test]
fn copies_of_actions_and_errors_are_equal_to_them() {
    let error = UiError::Error(String::from("e"));
    assert_eq!(error.clone().message(), "e");
    let action = UiAction::AddUiText(String::from("t"), Vector2::new(1, 2), Vector2::new(3, 4));
    match action.clone() {
        UiAction::AddUiText(t, p, s) => {
            assert_eq!((t.as_str(), p, s), ("t", Vector2::new(1, 2), Vector2::new(3, 4)));
        }
        UiAction::WriteError(_) => panic!("the copy is of another kind"),
    }
}
