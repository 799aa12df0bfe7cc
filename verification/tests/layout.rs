use console_grid::interface::ui_error::UiError;
use console_grid::interface::word::{escape_markup, Word};
use console_grid::util::rgba8::RGBA8;
use console_grid::util::vector::Vector2;

fn layout(text: &str, x: i32, y: i32, width: i32) -> Result<Vec<Word>, UiError> {
    Word::get_word_vec(&String::from(text), Vector2::new(x, y), Vector2::new(width, 10))
}

fn message(text: &str) -> String {
    layout(text, 0, 0, 40).unwrap_err().message().clone()
}

#[test]
fn plain_words_lie_on_one_row() {
    let words = layout("hello wide world", 3, 7, 40).unwrap();
    assert_eq!(words.len(), 3);
    assert_eq!(words[0].text, "hello");
    assert_eq!(words[0].pos, Vector2::new(3, 7));
    assert_eq!(words[1].text, "wide");
    assert_eq!(words[1].pos, Vector2::new(9, 7));
    assert_eq!(words[2].text, "world");
    assert_eq!(words[2].pos, Vector2::new(14, 7));
    let joined: Vec<&str> = words.iter().map(|w| w.text.as_str()).collect();
    assert_eq!(joined.join(" "), "hello wide world");
    assert!(words.iter().all(|w| !w.highlight && w.fg_color.is_none() && w.action.is_none()));
}

#[test]
fn box_as_wide_as_the_text_holds_it_in_one_row() {
    let text = "one two three";
    let words = layout(text, 0, 0, text.len() as i32).unwrap();
    assert_eq!(words.len(), 3);
    assert!(words.iter().all(|w| w.pos.y == 0));
    assert_eq!(words[2].pos.x, 8);
}

#[test]
fn empty_text_has_no_words() {
    assert_eq!(layout("", 0, 0, 10).unwrap().len(), 0);
    assert_eq!(layout("   ", 0, 0, 10).unwrap().len(), 0);
}

#[test]
fn long_word_moves_to_the_row_below() {
    let words = layout("abcdef", 0, 0, 5).unwrap();
    assert_eq!(words.len(), 1);
    assert_eq!(words[0].text, "abcdef");
    assert_eq!(words[0].pos, Vector2::new(0, -1));
}

#[test]
fn word_that_does_not_fit_the_rest_of_the_row_wraps() {
    let words = layout("aaa bbbb", 2, 5, 6).unwrap();
    assert_eq!(words.len(), 2);
    assert_eq!(words[0].pos, Vector2::new(2, 5));
    assert_eq!(words[1].text, "bbbb");
    assert_eq!(words[1].pos, Vector2::new(2, 4));
}

#[test]
fn line_feed_starts_a_new_row() {
    let words = layout("ab\ncd ef", 4, 9, 30).unwrap();
    assert_eq!(words.len(), 3);
    assert_eq!(words[0].pos, Vector2::new(4, 9));
    assert_eq!(words[1].pos, Vector2::new(4, 8));
    assert_eq!(words[2].pos, Vector2::new(7, 8));
}

#[test]
fn word_length_counts_characters_not_bytes() {
    let words = layout("h\u{e9}llo w\u{f6}rld", 0, 0, 40).unwrap();
    assert_eq!(words.len(), 2);
    assert_eq!(words[0].text, "h\u{e9}llo");
    assert_eq!(words[1].text, "w\u{f6}rld");
    assert_eq!(words[1].pos, Vector2::new(6, 0));
}

#[test]
fn color_escape_applies_to_the_next_word() {
    let words = layout("a`cff0000b", 0, 0, 20).unwrap();
    assert_eq!(words.len(), 2);
    assert_eq!(words[0].text, "a");
    assert_eq!(words[0].fg_color, None);
    assert_eq!(words[1].text, "b");
    assert_eq!(words[1].pos, Vector2::new(1, 0));
    assert_eq!(words[1].fg_color, Some(RGBA8::new(255, 0, 0, 255)));
}

#[test]
fn color_escape_takes_mixed_case_digits() {
    let words = layout("`c0aF1b2 x", 0, 0, 20).unwrap();
    assert_eq!(words.len(), 1);
    assert_eq!(words[0].fg_color, Some(RGBA8::new(0x0a, 0xf1, 0xb2, 255)));
    assert_eq!(words[0].pos, Vector2::new(0, 0));
}

#[test]
fn action_and_clear_escapes_set_and_cancel_overrides() {
    let words = layout("Lorem `cff00ff `l0 ipsum `klh dolor `kc sit", 5, 40, 60).unwrap();
    let texts: Vec<&str> = words.iter().map(|w| w.text.as_str()).collect();
    assert_eq!(texts, vec!["Lorem", "ipsum", "h", "dolor", "sit"]);
    let pink = Some(RGBA8::new(255, 0, 255, 255));
    assert_eq!(words[0].fg_color, None);
    assert_eq!(words[0].action, None);
    assert_eq!(words[1].fg_color, pink);
    assert_eq!(words[1].action, Some(0));
    assert_eq!(words[2].fg_color, pink);
    assert_eq!(words[2].action, None);
    assert_eq!(words[3].fg_color, pink);
    assert_eq!(words[4].fg_color, None);
    assert_eq!(words[1].pos, Vector2::new(11, 40));
}

#[test]
fn action_id_is_read_as_a_decimal_number() {
    let words = layout("`l0042 go", 0, 0, 20).unwrap();
    assert_eq!(words[0].action, Some(42));
    let words = layout("`l2147483647 go", 0, 0, 20).unwrap();
    assert_eq!(words[0].action, Some(i32::MAX));
}

#[test]
fn doubled_escape_character_stands_for_itself() {
    let words = layout("a``b", 0, 0, 20).unwrap();
    assert_eq!(words.len(), 1);
    assert_eq!(words[0].text, "a`b");
}

#[test]
fn invalid_flag_names_the_flag_and_its_place() {
    assert_eq!(message("`z"), "invalid flag z at character 1");
    assert_eq!(message("hello `x world"), "invalid flag x at character 7");
}

#[test]
fn invalid_clear_flag_is_an_error() {
    assert_eq!(message("`kq"), "invalid clear flag q at character 2");
}

#[test]
fn invalid_color_is_an_error() {
    assert_eq!(message("`cff00zz word"), "invalid color ff00zz at character 7");
}

#[test]
fn invalid_action_is_an_error() {
    assert_eq!(message("`l1x go"), "invalid action 1x at character 4");
    assert_eq!(message("`l go"), "invalid action  at character 2");
    assert_eq!(message("`l2147483648 go"), "invalid action 2147483648 at character 12");
    assert_eq!(message("`l-1 go"), "invalid action -1 at character 4");
}

#[test]
fn truncated_color_is_an_error() {
    assert_eq!(message("`cff000"), "unterminated escape at character 7");
}

#[test]
fn text_that_ends_inside_an_escape_is_an_error() {
    assert_eq!(message("ab`"), "unterminated escape at character 3");
    assert_eq!(message("`k"), "unterminated escape at character 2");
    assert_eq!(message("`l12"), "unterminated escape at character 4");
}

#[test]
fn complete_color_at_the_end_is_no_error() {
    assert_eq!(layout("a `cff0000", 0, 0, 20).unwrap().len(), 1);
}

#[test]
fn layout_that_leaves_the_coordinate_range_is_an_error() {
    let error = Word::get_word_vec(
        &String::from("abc"),
        Vector2::new(i32::MAX - 2, 0),
        Vector2::new(1, 1),
    )
    .unwrap_err();
    assert_eq!(error.message(), "layout out of range");
    let error =
        Word::get_word_vec(&String::from("abc"), Vector2::new(0, i32::MIN + 2), Vector2::new(1, 1))
            .unwrap_err();
    assert_eq!(error.message(), "layout out of range");
    assert!(Word::get_word_vec(
        &String::from("abc"),
        Vector2::new(i32::MAX - 4, i32::MIN + 3),
        Vector2::new(4, 1)
    )
    .is_ok());
}

#[test]
fn max_size_is_the_extent_of_the_words() {
    let (words, max_size) = Word::get_word_vec_and_max_size(
        &String::from("ab cde\nf"),
        Vector2::new(10, 20),
        Vector2::new(30, 5),
    )
    .unwrap();
    assert_eq!(words.len(), 3);
    assert_eq!(max_size, Vector2::new(6, 2));
    let (_, empty) =
        Word::get_word_vec_and_max_size(&String::new(), Vector2::new(1, 1), Vector2::new(3, 3))
            .unwrap();
    assert_eq!(empty, Vector2::new(0, 0));
}

#[test]
fn escaped_text_is_laid_out_as_it_stands() {
    let raw = "invalid clear flag ` at character 2";
    let escaped = escape_markup(raw);
    assert_eq!(escaped, "invalid clear flag `` at character 2");
    let words = layout(&escaped, 0, 0, 80).unwrap();
    let texts: Vec<&str> = words.iter().map(|w| w.text.as_str()).collect();
    assert_eq!(texts.join(" "), raw);
}
