use hex::FromHexError;
use substring::Substring;
use vstd::prelude::*;

verus! {

/// `hex::FromHexError`, the error of `hex::decode`: carried through as it
/// is, with nothing claimed of what it holds.
#[verifier::external_type_specification]
#[verifier::external_body]
pub struct ExFromHexError(hex::FromHexError);

/// A colour with eight bits for each of red, green, blue and alpha.
#[derive(Copy, Clone, Debug, PartialEq, Eq, Structural)]
pub struct RGBA8 {
    pub r: u8,
    pub b: u8,
    pub g: u8,
    pub a: u8,
}

/// One of `0`-`9`, `a`-`f`, `A`-`F`.
pub open spec fn is_hex_digit(c: char) -> bool {
    ('0' <= c && c <= '9') || ('a' <= c && c <= 'f') || ('A' <= c && c <= 'F')
}

/// The number from 0 to 15 that a hexadecimal digit stands for.
pub open spec fn hex_digit_value(c: char) -> int {
    if '0' <= c && c <= '9' {
        c as int - '0' as int
    } else if 'a' <= c && c <= 'f' {
        c as int - 'a' as int + 10
    } else {
        c as int - 'A' as int + 10
    }
}

/// The byte written as the two hexadecimal digits `hi` and `lo`.
pub open spec fn hex_byte(hi: char, lo: char) -> u8 {
    (hex_digit_value(hi) * 16 + hex_digit_value(lo)) as u8
}

/// Text that reads as a whole number of bytes in hexadecimal.
pub open spec fn hex_decodable(s: Seq<char>) -> bool {
    &&& s.len() % 2 == 0
    &&& forall|i: int| 0 <= i < s.len() ==> is_hex_digit(#[trigger] s[i])
}

/// The bytes that hexadecimal text stands for, two digits to a byte.
pub open spec fn hex_decoded(s: Seq<char>) -> Seq<u8> {
    Seq::new(s.len() / 2, |i: int| hex_byte(s[2 * i], s[2 * i + 1]))
}

/// The characters of `s` from position `start` up to `end`, both counted in
/// characters and cut down to the length of `s`; empty when `end <= start`.
pub open spec fn spec_substring(s: Seq<char>, start: int, end: int) -> Seq<char> {
    if end <= start {
        Seq::empty()
    } else {
        let from = if start < s.len() { start } else { s.len() as int };
        let to = if end < s.len() { end } else { s.len() as int };
        s.subrange(from, to)
    }
}

/// `hex::decode` on a string slice. Believed of it: decoding succeeds exactly
/// on an even number of hexadecimal digits in either case, and then yields
/// one byte for each pair of digits, the first digit being the high nibble.
/// Nothing is claimed of the error it returns otherwise.
#[verifier::external_body]
fn hex_decode(s: &str) -> (r: Result<Vec<u8>, FromHexError>)
    ensures
        r is Ok <==> hex_decodable(s@),
        r is Ok ==> r->Ok_0@ == hex_decoded(s@),
{
    hex::decode(s)
}

/// `substring::Substring::substring` on a string slice. Believed of it: the
/// result holds the characters at positions `start_index` up to `end_index`,
/// counted in characters, with both ends cut down to the length of the text,
/// and is empty when `end_index <= start_index`.
#[verifier::external_body]
fn substring<'a>(s: &'a str, start_index: usize, end_index: usize) -> (r: &'a str)
    ensures
        r@ == spec_substring(s@, start_index as int, end_index as int),
{
    s.substring(start_index, end_index)
}

/// The `k`-th two-character piece of a colour's text.
pub open spec fn color_piece(s: Seq<char>, k: int) -> Seq<char> {
    spec_substring(s, 2 * k, 2 * k + 2)
}

/// The colour component that a piece stands for: its byte, or zero for an
/// empty piece.
pub open spec fn color_component(piece: Seq<char>) -> u8 {
    if piece.len() == 0 {
        0u8
    } else {
        hex_byte(piece[0], piece[1])
    }
}

/// Text from which a colour can be read: each of its first three
/// two-character pieces is hexadecimal.
pub open spec fn color_decodable(s: Seq<char>) -> bool {
    &&& hex_decodable(color_piece(s, 0))
    &&& hex_decodable(color_piece(s, 1))
    &&& hex_decodable(color_piece(s, 2))
}

/// The opaque colour that text of the form `rrggbb` stands for.
pub open spec fn color_of_hex(s: Seq<char>) -> RGBA8 {
    RGBA8 {
        r: color_component(color_piece(s, 0)),
        g: color_component(color_piece(s, 1)),
        b: color_component(color_piece(s, 2)),
        a: 255,
    }
}

/// Reads one colour component from the `k`-th piece of `input`.
fn decode_component(input: &str, k: usize) -> (r: Result<u8, FromHexError>)
    requires
        k < 3,
    ensures
        r is Ok <==> hex_decodable(color_piece(input@, k as int)),
        r is Ok ==> r->Ok_0 == color_component(color_piece(input@, k as int)),
{
    let piece = substring(input, 2 * k, 2 * k + 2);
    match hex_decode(piece) {
        Ok(bytes) => {
            if bytes.len() == 0 {
                Ok(0)
            } else {
                Ok(bytes[0])
            }
        },
        Err(e) => Err(e),
    }
}

impl RGBA8 {
    #[inline]
    pub fn new(r: u8, g: u8, b: u8, a: u8) -> (c: Self)
        ensures
            c == (RGBA8 { r, g, b, a }),
    {
        Self { r, g, b, a }
    }

    /// Reads an opaque colour from text of the form `rrggbb`. The red, green
    /// and blue components are the first, second and third pair of
    /// hexadecimal digits; a pair that the text is too short to hold counts
    /// as zero. The text is refused when a pair holds anything but two
    /// hexadecimal digits.
    pub fn from_hex_string(input: &String) -> (res: Result<Self, FromHexError>)
        ensures
            res is Ok <==> color_decodable(input@),
            res is Ok ==> res->Ok_0 == color_of_hex(input@),
    {
        let text = input.as_str();
        let r = match decode_component(text, 0) {
            Ok(v) => v,
            Err(e) => { return Err(e); },
        };
        let g = match decode_component(text, 1) {
            Ok(v) => v,
            Err(e) => { return Err(e); },
        };
        let b = match decode_component(text, 2) {
            Ok(v) => v,
            Err(e) => { return Err(e); },
        };
        Ok(RGBA8 { r, g, b, a: 255 })
    }
}

} // verus!
