use console_grid::util::buffer::filled;
use console_grid::util::text::{
    char_is_whitespace, chars_of, parse_number, push_decimal, push_str, string_from_chars,
};

#[test]
fn white_space_is_what_the_standard_library_says() {
    for code in 0..=0x10FFFFu32 {
        if let Some(c) = char::from_u32(code) {
            assert_eq!(char_is_whitespace(c), c.is_whitespace(), "U+{:04X}", code);
        }
    }
}

#[test]
fn characters_round_trip_through_strings() {
    let chars = chars_of("gr\u{fc}n \u{2764}");
    assert_eq!(chars, vec!['g', 'r', '\u{fc}', 'n', ' ', '\u{2764}']);
    assert_eq!(string_from_chars(&chars), "gr\u{fc}n \u{2764}");
    assert_eq!(string_from_chars(&Vec::new()), "");
}

#[test]
fn decimal_notation_has_no_leading_zeros() {
    let mut out = vec!['n', '='];
    push_decimal(&mut out, 0);
    push_str(&mut out, ", ");
    push_decimal(&mut out, 9);
    push_str(&mut out, ", ");
    push_decimal(&mut out, 10);
    push_str(&mut out, ", ");
    push_decimal(&mut out, 4096);
    assert_eq!(string_from_chars(&out), "n=0, 9, 10, 4096");
    let mut max = Vec::new();
    push_decimal(&mut max, usize::MAX);
    assert_eq!(string_from_chars(&max), format!("{}", usize::MAX));
}

#[test]
fn numbers_are_runs_of_digits_in_range() {
    assert_eq!(parse_number(&chars_of("0")), Some(0));
    assert_eq!(parse_number(&chars_of("007")), Some(7));
    assert_eq!(parse_number(&chars_of("2147483647")), Some(i32::MAX));
    assert_eq!(parse_number(&chars_of("2147483648")), None);
    assert_eq!(parse_number(&chars_of("99999999999999999999999")), None);
    assert_eq!(parse_number(&chars_of("")), None);
    assert_eq!(parse_number(&chars_of("+1")), None);
    assert_eq!(parse_number(&chars_of("-1")), None);
    assert_eq!(parse_number(&chars_of("12a")), None);
    assert_eq!(parse_number(&chars_of("\u{661}")), None);
}

#[test]
fn filled_repeats_the_value() {
    assert_eq!(filled(7u8, 3), vec![7, 7, 7]);
    assert_eq!(filled('x', 0), Vec::<char>::new());
}
