use console_grid::util::rgba8::RGBA8;
use console_grid::util::vector::Vector2;
use hex::FromHexError;

fn read(text: &str) -> Result<RGBA8, FromHexError> {
    RGBA8::from_hex_string(&String::from(text))
}

#[test]
fn new_keeps_the_channels() {
    let c = RGBA8::new(1, 2, 3, 4);
    assert_eq!((c.r, c.g, c.b, c.a), (1, 2, 3, 4));
}

#[test]
fn vector_new_keeps_the_coordinates() {
    let v = Vector2::new(-3, 7);
    assert_eq!((v.x, v.y), (-3, 7));
}

#[test]
fn hex_string_gives_an_opaque_color() {
    assert_eq!(read("ff0000"), Ok(RGBA8::new(255, 0, 0, 255)));
    assert_eq!(read("00ff00"), Ok(RGBA8::new(0, 255, 0, 255)));
    assert_eq!(read("0000ff"), Ok(RGBA8::new(0, 0, 255, 255)));
    assert_eq!(read("1a2B3c"), Ok(RGBA8::new(0x1a, 0x2b, 0x3c, 255)));
}

#[test]
fn hex_string_reads_only_the_first_six_characters() {
    assert_eq!(read("102030zz"), Ok(RGBA8::new(0x10, 0x20, 0x30, 255)));
}

#[test]
fn missing_pairs_count_as_zero() {
    assert_eq!(read(""), Ok(RGBA8::new(0, 0, 0, 255)));
    assert_eq!(read("ff"), Ok(RGBA8::new(255, 0, 0, 255)));
    assert_eq!(read("ff80"), Ok(RGBA8::new(255, 128, 0, 255)));
}

#[test]
fn half_a_pair_is_refused() {
    assert_eq!(read("f"), Err(FromHexError::OddLength));
    assert_eq!(read("ff0"), Err(FromHexError::OddLength));
    assert_eq!(read("ff00f"), Err(FromHexError::OddLength));
}

#[test]
fn other_characters_are_refused() {
    assert_eq!(read("gg0000"), Err(FromHexError::InvalidHexCharacter { c: 'g', index: 0 }));
    assert_eq!(read("00 100"), Err(FromHexError::InvalidHexCharacter { c: ' ', index: 0 }));
    assert!(read("0000\u{e9}0").is_err());
}

#[test]
fn vectors_add_and_subtract_by_coordinate() {
    assert_eq!(Vector2::new(1, -2) + Vector2::new(10, 20), Vector2::new(11, 18));
    assert_eq!(Vector2::new(1, -2) - Vector2::new(10, 20), Vector2::new(-9, -22));
}

#[test]
fn vectors_scale_by_a_number() {
    assert_eq!(Vector2::new(3, -4) * 5, Vector2::new(15, -20));
    assert_eq!(Vector2::new(7, -7) / 2, Vector2::new(3, -3));
    assert_eq!(Vector2::new(7, -7) / -2, Vector2::new(-3, 3));
    assert_eq!(Vector2::new(i32::MIN, i32::MAX) / 1, Vector2::new(i32::MIN, i32::MAX));
    assert_eq!(Vector2::new(i32::MIN, i32::MAX) / -2, Vector2::new(1 << 30, -(i32::MAX / 2)));
}

#[test]
fn generic_pairs_hold_any_type() {
    let pair = console_grid::util::vector::Vector2Generic::new("a", "b");
    assert_eq!((pair.x, pair.y), ("a", "b"));
}
