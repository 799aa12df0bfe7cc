use crate::interface::ui_error::UiError;
use crate::util::rgba8::{color_decodable, color_of_hex, RGBA8};
use crate::util::text::{
    char_is_whitespace, chars_of, decimal, decimal_value, is_number, is_whitespace, parse_number,
    push_decimal, push_str, string_from_chars,
};
use crate::util::vector::Vector2;
use vstd::prelude::*;

verus! {

/// A run of characters laid out at one grid position, with the style that
/// was active while it was read.
#[derive(Clone, Debug)]
pub struct Word {
    pub text: String,
    pub pos: Vector2,
    pub highlight: bool,
    pub fg_color: Option<RGBA8>,
    pub action: Option<i32>,
}

/// What a [`Word`] holds, with its text as a sequence of characters.
pub struct WordView {
    pub text: Seq<char>,
    pub pos: Vector2,
    pub highlight: bool,
    pub fg_color: Option<RGBA8>,
    pub action: Option<i32>,
}

impl View for Word {
    type V = WordView;

    open spec fn view(&self) -> WordView {
        WordView {
            text: self.text@,
            pos: self.pos,
            highlight: self.highlight,
            fg_color: self.fg_color,
            action: self.action,
        }
    }
}

/// The views of a sequence of words, in order.
pub open spec fn views(words: Seq<Word>) -> Seq<WordView> {
    Seq::new(words.len(), |i: int| words[i]@)
}

/// What the scanner expects next.
#[derive(Copy, Clone, Debug, PartialEq, Eq, Structural)]
pub enum ParsingMod {
    /// Ordinary text.
    Word,
    /// The flag letter that follows the escape character.
    GetParam,
    /// The six hexadecimal digits of a colour.
    Color,
    /// The digits of an action id, up to white space.
    Action,
    /// The flag letter that names the override to cancel.
    Clear,
}

/// The scanner's state between two characters.
pub struct LayoutState {
    /// The words laid out so far.
    pub words: Seq<WordView>,
    /// The word, or the argument of an escape, that is being read.
    pub last_word: Seq<char>,
    /// The column at which the word being read starts.
    pub x_pos: int,
    /// The row of the word being read.
    pub y_pos: int,
    pub mode: ParsingMod,
    /// The foreground colour in force, if any.
    pub color: Option<RGBA8>,
    /// The action in force, if any.
    pub action: Option<i32>,
}

/// The state before the first character.
pub open spec fn initial_state(origin: Vector2) -> LayoutState {
    LayoutState {
        words: Seq::empty(),
        last_word: Seq::empty(),
        x_pos: origin.x as int,
        y_pos: origin.y as int,
        mode: ParsingMod::Word,
        color: None,
        action: None,
    }
}

/// Ends the word being read: a word that is not empty is laid out at the
/// cursor with the style in force, and the cursor moves past it and `gap`
/// columns further.
pub open spec fn close_word(s: LayoutState, gap: int) -> LayoutState {
    if s.last_word.len() > 0 {
        LayoutState {
            words: s.words.push(
                WordView {
                    text: s.last_word,
                    pos: Vector2 { x: s.x_pos as i32, y: s.y_pos as i32 },
                    highlight: false,
                    fg_color: s.color,
                    action: s.action,
                },
            ),
            last_word: Seq::empty(),
            x_pos: s.x_pos + s.last_word.len() + gap,
            ..s
        }
    } else {
        s
    }
}

/// Moves the cursor to the start of the next row down.
pub open spec fn new_line(s: LayoutState, origin: Vector2) -> LayoutState {
    LayoutState { x_pos: origin.x as int, y_pos: s.y_pos - 1, ..s }
}

/// Adds a character to the word being read. A word that would then reach
/// past column `max_x` moves to the start of the next row down.
pub open spec fn append_char(s: LayoutState, c: char, origin: Vector2, max_x: int) -> LayoutState {
    let word = s.last_word.push(c);
    if s.x_pos + word.len() > max_x {
        LayoutState { last_word: word, x_pos: origin.x as int, y_pos: s.y_pos - 1, ..s }
    } else {
        LayoutState { last_word: word, ..s }
    }
}

/// The words " at character " and the decimal position `i`.
pub open spec fn at_character(i: nat) -> Seq<char> {
    " at character "@ + decimal(i)
}

/// The message for a character `c` at position `i` that is no flag.
pub open spec fn invalid_flag_message(c: char, i: nat) -> Seq<char> {
    "invalid flag "@ + seq![c] + at_character(i)
}

/// The message for a character `c` at position `i` that names no override.
pub open spec fn invalid_clear_flag_message(c: char, i: nat) -> Seq<char> {
    "invalid clear flag "@ + seq![c] + at_character(i)
}

/// The message for six characters, ending at position `i`, that are no colour.
pub open spec fn invalid_color_message(token: Seq<char>, i: nat) -> Seq<char> {
    "invalid color "@ + token + at_character(i)
}

/// The message for an action id, ended at position `i`, that is no number
/// in the range of `i32`.
pub open spec fn invalid_action_message(token: Seq<char>, i: nat) -> Seq<char> {
    "invalid action "@ + token + at_character(i)
}

/// The message for a text of `n` characters that ends inside an escape.
pub open spec fn unterminated_message(n: nat) -> Seq<char> {
    "unterminated escape"@ + at_character(n)
}

/// The message for a text that the coordinate range cannot hold.
pub open spec fn out_of_range_message() -> Seq<char> {
    "layout out of range"@
}

/// The state after the character `c`, read at position `i`, or the message
/// of the error that it raises.
///
/// In ordinary text the escape character announces a flag, white space ends
/// the word being read (a line feed also starts a new row), and any other
/// character joins the word. After the escape character, `c`, `l` and `k`
/// end the word being read, without a gap, and announce a colour, an action
/// id and a cancellation; a second escape character stands for itself.
/// A colour is six hexadecimal digits. An action id is a run of digits ended
/// by white space. A cancellation is `c` for the colour or `l` for the action.
pub open spec fn step(s: LayoutState, c: char, i: nat, origin: Vector2, max_x: int) -> Result<
    LayoutState,
    Seq<char>,
> {
    match s.mode {
        ParsingMod::Word => {
            if c == '`' {
                Ok(LayoutState { mode: ParsingMod::GetParam, ..s })
            } else if is_whitespace(c) {
                if c == '\n' {
                    Ok(new_line(close_word(s, 1), origin))
                } else {
                    Ok(close_word(s, 1))
                }
            } else {
                Ok(append_char(s, c, origin, max_x))
            }
        },
        ParsingMod::GetParam => {
            if c == 'c' {
                Ok(LayoutState { mode: ParsingMod::Color, ..close_word(s, 0) })
            } else if c == 'k' {
                Ok(LayoutState { mode: ParsingMod::Clear, ..close_word(s, 0) })
            } else if c == 'l' {
                Ok(LayoutState { mode: ParsingMod::Action, ..close_word(s, 0) })
            } else if c == '`' {
                Ok(LayoutState { mode: ParsingMod::Word, ..append_char(s, c, origin, max_x) })
            } else {
                Err(invalid_flag_message(c, i))
            }
        },
        ParsingMod::Color => {
            let token = s.last_word.push(c);
            if token.len() < 6 {
                Ok(LayoutState { last_word: token, ..s })
            } else if color_decodable(token) {
                Ok(
                    LayoutState {
                        last_word: Seq::empty(),
                        color: Some(color_of_hex(token)),
                        mode: ParsingMod::Word,
                        ..s
                    },
                )
            } else {
                Err(invalid_color_message(token, i))
            }
        },
        ParsingMod::Action => {
            if is_whitespace(c) {
                if is_number(s.last_word) && decimal_value(s.last_word) <= i32::MAX {
                    Ok(
                        LayoutState {
                            last_word: Seq::empty(),
                            action: Some(decimal_value(s.last_word) as i32),
                            mode: ParsingMod::Word,
                            ..s
                        },
                    )
                } else {
                    Err(invalid_action_message(s.last_word, i))
                }
            } else {
                Ok(LayoutState { last_word: s.last_word.push(c), ..s })
            }
        },
        ParsingMod::Clear => {
            if c == 'c' {
                Ok(LayoutState { color: None, mode: ParsingMod::Word, ..s })
            } else if c == 'l' {
                Ok(LayoutState { action: None, mode: ParsingMod::Word, ..s })
            } else {
                Err(invalid_clear_flag_message(c, i))
            }
        },
    }
}

/// The state after the first `n` characters of `text`, or the message of the
/// first error among them.
pub open spec fn run(text: Seq<char>, n: nat, origin: Vector2, max_x: int) -> Result<
    LayoutState,
    Seq<char>,
>
    decreases n,
{
    if n == 0 {
        Ok(initial_state(origin))
    } else {
        match run(text, (n - 1) as nat, origin, max_x) {
            Ok(s) => step(s, text[n - 1], (n - 1) as nat, origin, max_x),
            Err(message) => Err(message),
        }
    }
}

/// Texts that the coordinate range can hold: the right edge of the box, the
/// column after the longest possible row, the deepest possible row, and the
/// largest possible extent are all in the range of `i32`.
pub open spec fn layout_fits(len: nat, origin: Vector2, size: Vector2) -> bool {
    &&& i32::MIN <= origin.x + size.x <= i32::MAX
    &&& origin.x + len + 1 <= i32::MAX
    &&& origin.y - len >= i32::MIN
    &&& len + 1 <= i32::MAX
}

/// The words of `text`, laid out from `origin` in a box `size.x` columns
/// wide, or the message of the error that `text` raises.
///
/// The end of the text ends the word being read. A text that ends inside an
/// escape is an error: an escape character with no flag, a colour with fewer
/// than six digits, an action id with no white space after it, a
/// cancellation with no flag.
pub open spec fn layout(text: Seq<char>, origin: Vector2, size: Vector2) -> Result<
    Seq<WordView>,
    Seq<char>,
> {
    if !layout_fits(text.len(), origin, size) {
        Err(out_of_range_message())
    } else {
        match run(text, text.len(), origin, origin.x + size.x) {
            Ok(s) => {
                if s.mode == ParsingMod::Word {
                    Ok(close_word(s, 1).words)
                } else {
                    Err(unterminated_message(text.len()))
                }
            },
            Err(message) => Err(message),
        }
    }
}

/// The larger of two integers.
pub open spec fn max_int(a: int, b: int) -> int {
    if a >= b {
        a
    } else {
        b
    }
}

/// The number of columns, counted from `origin.x`, that the words reach.
pub open spec fn extent_x(words: Seq<WordView>, origin: Vector2) -> int
    decreases words.len(),
{
    if words.len() == 0 {
        0
    } else {
        max_int(
            extent_x(words.drop_last(), origin),
            words.last().pos.x - origin.x + words.last().text.len(),
        )
    }
}

/// The number of rows, counted downward from `origin.y`, that the words reach.
pub open spec fn extent_y(words: Seq<WordView>, origin: Vector2) -> int
    decreases words.len(),
{
    if words.len() == 0 {
        0
    } else {
        max_int(extent_y(words.drop_last(), origin), origin.y - words.last().pos.y + 1)
    }
}

/// The message `prefix`, `token`, " at character " and the position `i`.
fn error_at(prefix: &str, token: &Vec<char>, i: usize) -> (e: UiError)
    ensures
        e@ == prefix@ + token@ + at_character(i as nat),
{
    let mut out = chars_of(prefix);
    let mut k: usize = 0;
    while k < token.len()
        invariant
            k <= token.len(),
            out@ == prefix@ + token@.take(k as int),
        decreases token.len() - k,
    {
        out.push(token[k]);
        k += 1;
        proof {
            assert(token@.take(k as int) =~= token@.take(k - 1).push(token@[k - 1]));
        }
    }
    proof {
        assert(token@.take(k as int) =~= token@);
    }
    push_str(&mut out, " at character ");
    push_decimal(&mut out, i);
    proof {
        assert(out@ =~= prefix@ + token@ + at_character(i as nat));
    }
    UiError::Error(string_from_chars(&out))
}

/// The scanner at work: the state between two characters, the box that it
/// fills, and the extent of the words laid out so far.
struct Layouter {
    words: Vec<Word>,
    last_word: Vec<char>,
    x_pos: i32,
    y_pos: i32,
    mode: ParsingMod,
    color: Option<RGBA8>,
    action: Option<i32>,
    origin: Vector2,
    max_x: i32,
    extent: Vector2,
}

impl Layouter {
    spec fn state(&self) -> LayoutState {
        LayoutState {
            words: views(self.words@),
            last_word: self.last_word@,
            x_pos: self.x_pos as int,
            y_pos: self.y_pos as int,
            mode: self.mode,
            color: self.color,
            action: self.action,
        }
    }

    /// After `n` of `total` characters the cursor has moved at most `n`
    /// columns, and `slack` more, and at most `n` rows.
    spec fn bounded(&self, n: nat, total: nat, slack: int) -> bool {
        &&& n <= total
        &&& total + 1 <= i32::MAX
        &&& self.origin.x + total + 1 <= i32::MAX
        &&& self.origin.y - total >= i32::MIN
        &&& self.origin.x <= self.x_pos
        &&& self.x_pos + self.last_word@.len() <= self.origin.x + n + slack
        &&& self.origin.y - n <= self.y_pos <= self.origin.y
        &&& self.extent.x == extent_x(views(self.words@), self.origin)
        &&& self.extent.y == extent_y(views(self.words@), self.origin)
        &&& 0 <= self.extent.x <= n
        &&& 0 <= self.extent.y <= n + 1
    }

    fn new(origin: Vector2, max_x: i32, Ghost(total): Ghost<nat>) -> (l: Self)
        requires
            total + 1 <= i32::MAX,
            origin.x + total + 1 <= i32::MAX,
            origin.y - total >= i32::MIN,
        ensures
            l.state() == initial_state(origin),
            l.origin == origin,
            l.max_x == max_x,
            l.bounded(0, total, 0),
    {
        let l = Layouter {
            words: Vec::new(),
            last_word: Vec::new(),
            x_pos: origin.x,
            y_pos: origin.y,
            mode: ParsingMod::Word,
            color: None,
            action: None,
            origin,
            max_x,
            extent: Vector2 { x: 0, y: 0 },
        };
        proof {
            assert(views(l.words@) =~= Seq::<WordView>::empty());
        }
        l
    }

    fn close_word(&mut self, gap: i32, Ghost(n): Ghost<nat>, Ghost(total): Ghost<nat>)
        requires
            old(self).bounded(n, total, 0),
            0 <= gap <= 1,
        ensures
            final(self).state() == close_word(old(self).state(), gap as int),
            final(self).origin == old(self).origin,
            final(self).max_x == old(self).max_x,
            final(self).bounded(n, total, gap as int),
            final(self).last_word@.len() == 0,
    {
        let len = self.last_word.len();
        if len > 0 {
            let word = Word {
                text: string_from_chars(&self.last_word),
                pos: Vector2 { x: self.x_pos, y: self.y_pos },
                highlight: false,
                fg_color: self.color,
                action: self.action,
            };
            let reach: i32 = (self.x_pos as i64 - self.origin.x as i64 + len as i64) as i32;
            let depth: i32 = (self.origin.y as i64 - self.y_pos as i64 + 1) as i32;
            proof {
                let before = views(self.words@);
                let after = views(self.words@.push(word));
                assert(after =~= before.push(word@));
                assert(after.drop_last() =~= before);
            }
            self.words.push(word);
            if reach > self.extent.x {
                self.extent.x = reach;
            }
            if depth > self.extent.y {
                self.extent.y = depth;
            }
            self.x_pos = (self.x_pos as i64 + len as i64 + gap as i64) as i32;
            self.last_word = Vec::new();
        }
    }

    fn append_char(&mut self, c: char, Ghost(n): Ghost<nat>, Ghost(total): Ghost<nat>)
        requires
            old(self).bounded(n, total, 0),
            n < total,
        ensures
            final(self).state() == append_char(
                old(self).state(),
                c,
                old(self).origin,
                old(self).max_x as int,
            ),
            final(self).origin == old(self).origin,
            final(self).max_x == old(self).max_x,
            final(self).bounded(n + 1, total, 0),
    {
        self.last_word.push(c);
        if self.x_pos as i64 + self.last_word.len() as i64 > self.max_x as i64 {
            self.x_pos = self.origin.x;
            self.y_pos = self.y_pos - 1;
        }
    }

    /// Reads the character `c`, which stands at position `i`.
    fn step(&mut self, c: char, i: usize, Ghost(total): Ghost<nat>) -> (r: Result<(), UiError>)
        requires
            old(self).bounded(i as nat, total, 0),
            i < total,
        ensures
            final(self).origin == old(self).origin,
            final(self).max_x == old(self).max_x,
            match step(old(self).state(), c, i as nat, old(self).origin, old(self).max_x as int) {
                Ok(next) => r is Ok && final(self).state() == next && final(self).bounded(
                    (i + 1) as nat,
                    total,
                    0,
                ),
                Err(message) => r is Err && r->Err_0@ == message,
            },
    {
        match self.mode {
            ParsingMod::Word => {
                if c == '`' {
                    self.mode = ParsingMod::GetParam;
                } else if char_is_whitespace(c) {
                    self.close_word(1, Ghost(i as nat), Ghost(total));
                    if c == '\n' {
                        self.x_pos = self.origin.x;
                        self.y_pos = self.y_pos - 1;
                    }
                } else {
                    self.append_char(c, Ghost(i as nat), Ghost(total));
                }
            },
            ParsingMod::GetParam => {
                if c == 'c' {
                    self.close_word(0, Ghost(i as nat), Ghost(total));
                    self.mode = ParsingMod::Color;
                } else if c == 'k' {
                    self.close_word(0, Ghost(i as nat), Ghost(total));
                    self.mode = ParsingMod::Clear;
                } else if c == 'l' {
                    self.close_word(0, Ghost(i as nat), Ghost(total));
                    self.mode = ParsingMod::Action;
                } else if c == '`' {
                    self.append_char(c, Ghost(i as nat), Ghost(total));
                    self.mode = ParsingMod::Word;
                } else {
                    let mut flag: Vec<char> = Vec::new();
                    flag.push(c);
                    proof {
                        assert(flag@ =~= seq![c]);
                    }
                    return Err(error_at("invalid flag ", &flag, i));
                }
            },
            ParsingMod::Color => {
                self.last_word.push(c);
                if self.last_word.len() >= 6 {
                    let token = string_from_chars(&self.last_word);
                    match RGBA8::from_hex_string(&token) {
                        Ok(color) => {
                            self.color = Some(color);
                            self.last_word = Vec::new();
                            self.mode = ParsingMod::Word;
                        },
                        Err(_) => {
                            return Err(error_at("invalid color ", &self.last_word, i));
                        },
                    }
                }
            },
            ParsingMod::Action => {
                if char_is_whitespace(c) {
                    match parse_number(&self.last_word) {
                        Some(id) => {
                            self.action = Some(id);
                            self.last_word = Vec::new();
                            self.mode = ParsingMod::Word;
                        },
                        None => {
                            return Err(error_at("invalid action ", &self.last_word, i));
                        },
                    }
                } else {
                    self.last_word.push(c);
                }
            },
            ParsingMod::Clear => {
                if c == 'c' {
                    self.color = None;
                    self.mode = ParsingMod::Word;
                } else if c == 'l' {
                    self.action = None;
                    self.mode = ParsingMod::Word;
                } else {
                    let mut flag: Vec<char> = Vec::new();
                    flag.push(c);
                    proof {
                        assert(flag@ =~= seq![c]);
                    }
                    return Err(error_at("invalid clear flag ", &flag, i));
                }
            },
        }
        Ok(())
    }
}

/// An error among the first `k` characters is the error of every longer run.
proof fn lemma_run_error_persists(text: Seq<char>, k: nat, n: nat, origin: Vector2, max_x: int)
    requires
        k <= n,
        run(text, k, origin, max_x) is Err,
    ensures
        run(text, n, origin, max_x) == run(text, k, origin, max_x),
    decreases n,
{
    if k < n {
        lemma_run_error_persists(text, k, (n - 1) as nat, origin, max_x);
    }
}

/// Whether the coordinate range can hold a text of `len` characters.
fn fits(len: usize, origin: Vector2, size: Vector2) -> (b: bool)
    ensures
        b == layout_fits(len as nat, origin, size),
{
    if len >= i32::MAX as usize {
        return false;
    }
    let right: i64 = origin.x as i64 + size.x as i64;
    let far: i64 = origin.x as i64 + len as i64 + 1;
    let deep: i64 = origin.y as i64 - len as i64;
    i32::MIN as i64 <= right && right <= i32::MAX as i64 && far <= i32::MAX as i64 && deep
        >= i32::MIN as i64
}

impl Word {
    /// Lays out `text` from `pos` in a box `size.x` columns wide. Returns the
    /// words in reading order, together with the number of columns and of
    /// rows that they reach, or the error that the text raises.
    pub fn get_word_vec_and_max_size(text: &String, pos: Vector2, size: Vector2) -> (res: Result<
        (Vec<Word>, Vector2),
        UiError,
    >)
        ensures
            match layout(text@, pos, size) {
                Ok(words) => {
                    &&& res is Ok
                    &&& views(res->Ok_0.0@) == words
                    &&& res->Ok_0.1.x == extent_x(words, pos)
                    &&& res->Ok_0.1.y == extent_y(words, pos)
                },
                Err(message) => res is Err && res->Err_0@ == message,
            },
    {
        let chars = chars_of(text.as_str());
        let n = chars.len();
        if !fits(n, pos, size) {
            return Err(UiError::Error("layout out of range".to_owned()));
        }
        let max_x: i32 = pos.x + size.x;
        let mut scanner = Layouter::new(pos, max_x, Ghost(n as nat));
        let mut i: usize = 0;
        while i < n
            invariant
                i <= n,
                n == chars@.len(),
                chars@ == text@,
                layout_fits(n as nat, pos, size),
                max_x == pos.x + size.x,
                scanner.origin == pos,
                scanner.max_x == max_x,
                scanner.bounded(i as nat, n as nat, 0),
                run(text@, i as nat, pos, max_x as int) == Ok::<LayoutState, Seq<char>>(
                    scanner.state(),
                ),
            decreases n - i,
        {
            let ghost before = scanner.state();
            match scanner.step(chars[i], i, Ghost(n as nat)) {
                Ok(()) => {},
                Err(e) => {
                    proof {
                        assert(run(text@, (i + 1) as nat, pos, max_x as int) == step(
                            before,
                            text@[i as int],
                            i as nat,
                            pos,
                            max_x as int,
                        ));
                        lemma_run_error_persists(
                            text@,
                            (i + 1) as nat,
                            n as nat,
                            pos,
                            max_x as int,
                        );
                    }
                    return Err(e);
                },
            }
            i += 1;
        }
        match scanner.mode {
            ParsingMod::Word => {
                scanner.close_word(1, Ghost(n as nat), Ghost(n as nat));
                Ok((scanner.words, scanner.extent))
            },
            _ => {
                let nothing: Vec<char> = Vec::new();
                let e = error_at("unterminated escape", &nothing, n);
                proof {
                    assert(e@ =~= unterminated_message(n as nat));
                }
                Err(e)
            },
        }
    }

    /// Lays out `text` from `pos` in a box `size.x` columns wide. Returns the
    /// words in reading order, or the error that the text raises.
    pub fn get_word_vec(text: &String, pos: Vector2, size: Vector2) -> (res: Result<
        Vec<Word>,
        UiError,
    >)
        ensures
            match layout(text@, pos, size) {
                Ok(words) => res is Ok && views(res->Ok_0@) == words,
                Err(message) => res is Err && res->Err_0@ == message,
            },
    {
        match Word::get_word_vec_and_max_size(text, pos, size) {
            Ok((words, _)) => Ok(words),
            Err(e) => Err(e),
        }
    }
}

/// A character that belongs to a word: neither white space nor the escape
/// character.
pub open spec fn is_word_char(c: char) -> bool {
    !is_whitespace(c) && c != '`'
}

/// A word without style at the given place.
pub open spec fn plain_word(text: Seq<char>, x: int, y: int) -> WordView {
    WordView {
        text,
        pos: Vector2 { x: x as i32, y: y as i32 },
        highlight: false,
        fg_color: None,
        action: None,
    }
}

/// While a single word still fits in the box, it is being read at the origin.
proof fn lemma_run_single_word(text: Seq<char>, n: nat, origin: Vector2, max_x: int)
    requires
        n <= text.len(),
        origin.x + n <= max_x,
        forall|i: int| 0 <= i < text.len() ==> is_word_char(#[trigger] text[i]),
    ensures
        run(text, n, origin, max_x) == Ok::<LayoutState, Seq<char>>(
            LayoutState { last_word: text.take(n as int), ..initial_state(origin) },
        ),
    decreases n,
{
    if n == 0 {
        assert(text.take(0) =~= Seq::<char>::empty());
    } else {
        lemma_run_single_word(text, (n - 1) as nat, origin, max_x);
        assert(is_word_char(text[n - 1]));
        assert(text.take(n - 1).push(text[n - 1]) =~= text.take(n as int));
    }
}

/// A single word that is one character longer than the box is wide is laid
/// out whole on the row below the origin, and not split across rows.
pub proof fn lemma_long_word_wraps_whole(text: Seq<char>, origin: Vector2, size: Vector2)
    requires
        size.x >= 0,
        text.len() == size.x + 1,
        forall|i: int| 0 <= i < text.len() ==> is_word_char(#[trigger] text[i]),
        layout_fits(text.len(), origin, size),
    ensures
        layout(text, origin, size) == Ok::<Seq<WordView>, Seq<char>>(
            seq![plain_word(text, origin.x as int, origin.y - 1)],
        ),
{
    let max_x = origin.x + size.x;
    let n = text.len();
    lemma_run_single_word(text, (n - 1) as nat, origin, max_x);
    assert(is_word_char(text[n - 1]));
    assert(text.take(n - 1).push(text[n - 1]) =~= text);
    let before = LayoutState { last_word: text.take(n - 1), ..initial_state(origin) };
    let after = LayoutState {
        last_word: text,
        x_pos: origin.x as int,
        y_pos: origin.y - 1,
        ..initial_state(origin)
    };
    assert(step(before, text[n - 1], (n - 1) as nat, origin, max_x) == Ok::<
        LayoutState,
        Seq<char>,
    >(after));
    assert(run(text, n, origin, max_x) == Ok::<LayoutState, Seq<char>>(after));
    assert(close_word(after, 1).words =~= seq![plain_word(text, origin.x as int, origin.y - 1)]);
}

/// The texts of the words, each followed by one space.
pub open spec fn spaced(words: Seq<WordView>) -> Seq<char>
    decreases words.len(),
{
    if words.len() == 0 {
        Seq::empty()
    } else {
        spaced(words.drop_last()) + words.last().text + seq![' ']
    }
}

/// The texts of the words with one space between each two.
pub open spec fn joined(words: Seq<WordView>) -> Seq<char> {
    if words.len() == 0 {
        Seq::empty()
    } else {
        spaced(words.drop_last()) + words.last().text
    }
}

/// A line of words with single spaces between them: no escape character, no
/// white space but the space, no space at either end, no two spaces in a row.
pub open spec fn is_plain_line(text: Seq<char>) -> bool {
    &&& forall|i: int| 0 <= i < text.len() ==> #[trigger] text[i] != '`'
    &&& forall|i: int| 0 <= i < text.len() && is_whitespace(#[trigger] text[i]) ==> text[i] == ' '
    &&& text.len() > 0 ==> text[0] != ' ' && text.last() != ' '
    &&& forall|i: int| 0 <= i < text.len() - 1 && #[trigger] text[i] == ' ' ==> text[i + 1] != ' '
}

/// Every word lies on row `y`, carries no style, and starts at the column of
/// its first character in the line that the words spell.
pub open spec fn in_one_row(words: Seq<WordView>, origin: Vector2) -> bool {
    forall|k: int|
        0 <= k < words.len() ==> #[trigger] words[k] == plain_word(
            words[k].text,
            origin.x + spaced(words.take(k)).len(),
            origin.y as int,
        )
}

/// The state after `n` characters of a plain line that fits in the box.
proof fn lemma_run_plain_line(text: Seq<char>, n: nat, origin: Vector2, max_x: int) -> (s:
    LayoutState)
    requires
        n <= text.len(),
        is_plain_line(text),
        origin.x + text.len() <= max_x,
        i32::MIN <= origin.x,
        origin.x + text.len() <= i32::MAX,
    ensures
        run(text, n, origin, max_x) == Ok::<LayoutState, Seq<char>>(s),
        s.mode == ParsingMod::Word,
        s.color is None,
        s.action is None,
        s.y_pos == origin.y,
        s.x_pos == origin.x + spaced(s.words).len(),
        spaced(s.words) + s.last_word == text.take(n as int),
        in_one_row(s.words, origin),
        n > 0 && text[n - 1] != ' ' ==> s.last_word.len() > 0,
    decreases n,
{
    if n == 0 {
        let s = initial_state(origin);
        assert(spaced(s.words) + s.last_word =~= text.take(0));
        s
    } else {
        let p = lemma_run_plain_line(text, (n - 1) as nat, origin, max_x);
        let c = text[n - 1];
        let s = step(p, c, (n - 1) as nat, origin, max_x)->Ok_0;
        assert(text.take(n as int) =~= text.take(n - 1).push(c));
        assert((spaced(p.words) + p.last_word).len() == n - 1);
        if c == ' ' {
            assert(is_whitespace(c));
            assert(n - 1 > 0);
            assert(text[n - 2] != ' ');
            assert(p.last_word.len() > 0);
            assert(s.words.drop_last() =~= p.words);
            assert(spaced(s.words) =~= spaced(p.words) + p.last_word + seq![' ']);
            assert(spaced(s.words) + s.last_word =~= text.take(n as int));
            assert forall|k: int| 0 <= k < s.words.len() implies #[trigger] s.words[k]
                == plain_word(
                s.words[k].text,
                origin.x + spaced(s.words.take(k)).len(),
                origin.y as int,
            ) by {
                if k < p.words.len() {
                    assert(s.words.take(k) =~= p.words.take(k));
                    assert(s.words[k] == p.words[k]);
                } else {
                    assert(s.words.take(k) =~= p.words);
                }
            }
        } else {
            assert(!is_whitespace(c));
            assert(spaced(s.words) + s.last_word =~= text.take(n as int));
        }
        s
    }
}

/// A line of words with single spaces between them, laid out in a box at
/// least as wide as the line is long, yields one row of words that spell
/// the line again when joined with single spaces.
pub proof fn lemma_plain_line_round_trip(text: Seq<char>, origin: Vector2, size: Vector2)
    requires
        is_plain_line(text),
        size.x >= text.len(),
        layout_fits(text.len(), origin, size),
    ensures
        layout(text, origin, size) is Ok,
        joined(layout(text, origin, size)->Ok_0) == text,
        in_one_row(layout(text, origin, size)->Ok_0, origin),
{
    let max_x = origin.x + size.x;
    let n = text.len();
    let s = lemma_run_plain_line(text, n, origin, max_x);
    assert(text.take(n as int) =~= text);
    let words = close_word(s, 1).words;
    if n == 0 {
        assert(s.last_word.len() == 0);
        assert(spaced(s.words).len() == 0);
        assert(s.words.len() == 0) by {
            if s.words.len() > 0 {
                assert(spaced(s.words).len() > 0);
            }
        }
        assert(joined(words) =~= text);
    } else {
        assert(text[n - 1] != ' ');
        assert(words.drop_last() =~= s.words);
        assert(joined(words) =~= text);
        assert forall|k: int| 0 <= k < words.len() implies #[trigger] words[k] == plain_word(
            words[k].text,
            origin.x + spaced(words.take(k)).len(),
            origin.y as int,
        ) by {
            if k < s.words.len() {
                assert(words.take(k) =~= s.words.take(k));
                assert(words[k] == s.words[k]);
            } else {
                assert(words.take(k) =~= s.words);
            }
        }
    }
}

/// No word is lit while the text is read.
proof fn lemma_run_unlit(text: Seq<char>, n: nat, origin: Vector2, max_x: int)
    ensures
        run(text, n, origin, max_x) is Ok ==> forall|k: int|
            0 <= k < run(text, n, origin, max_x)->Ok_0.words.len() ==> !(#[trigger] run(
                text,
                n,
                origin,
                max_x,
            )->Ok_0.words[k]).highlight,
    decreases n,
{
    if n > 0 {
        lemma_run_unlit(text, (n - 1) as nat, origin, max_x);
    }
}

/// No word is lit when it is laid out.
pub proof fn lemma_layout_unlit(text: Seq<char>, origin: Vector2, size: Vector2)
    ensures
        layout(text, origin, size) is Ok ==> forall|k: int|
            0 <= k < layout(text, origin, size)->Ok_0.len() ==> !(#[trigger] layout(
                text,
                origin,
                size,
            )->Ok_0[k]).highlight,
{
    lemma_run_unlit(text, text.len(), origin, origin.x + size.x);
}

/// The text in which every escape character of `s` is doubled, so that it
/// stands for itself.
pub open spec fn escaped(s: Seq<char>) -> Seq<char>
    decreases s.len(),
{
    if s.len() == 0 {
        Seq::empty()
    } else if s.last() == '`' {
        escaped(s.drop_last()).push('`').push('`')
    } else {
        escaped(s.drop_last()).push(s.last())
    }
}

/// Doubles every escape character of `text`.
pub fn escape_markup(text: &str) -> (out: String)
    ensures
        out@ == escaped(text@),
{
    let chars = chars_of(text);
    let mut out: Vec<char> = Vec::new();
    let mut i: usize = 0;
    while i < chars.len()
        invariant
            i <= chars@.len(),
            out@ == escaped(chars@.take(i as int)),
        decreases chars@.len() - i,
    {
        proof {
            let longer = chars@.take(i + 1);
            assert(longer.drop_last() =~= chars@.take(i as int));
            assert(longer.last() == chars@[i as int]);
        }
        let c = chars[i];
        if c == '`' {
            out.push('`');
        }
        out.push(c);
        i += 1;
    }
    proof {
        assert(chars@.take(i as int) =~= chars@);
    }
    string_from_chars(&out)
}

/// What is read of a text depends only on the characters read.
proof fn lemma_run_prefix(a: Seq<char>, b: Seq<char>, k: nat, origin: Vector2, max_x: int)
    requires
        k <= a.len(),
        k <= b.len(),
        forall|i: int| 0 <= i < k ==> a[i] == b[i],
    ensures
        run(a, k, origin, max_x) == run(b, k, origin, max_x),
    decreases k,
{
    if k > 0 {
        lemma_run_prefix(a, b, (k - 1) as nat, origin, max_x);
    }
}

/// A text whose escape characters are doubled is read to its end without
/// an error, and ordinary text is expected after it.
proof fn lemma_run_escaped(text: Seq<char>, origin: Vector2, max_x: int)
    ensures
        run(escaped(text), escaped(text).len(), origin, max_x) is Ok,
        run(escaped(text), escaped(text).len(), origin, max_x)->Ok_0.mode == ParsingMod::Word,
    decreases text.len(),
{
    if text.len() > 0 {
        let shorter = escaped(text.drop_last());
        let whole = escaped(text);
        let n = shorter.len();
        lemma_run_escaped(text.drop_last(), origin, max_x);
        lemma_run_prefix(whole, shorter, n, origin, max_x);
        let s = run(whole, n, origin, max_x)->Ok_0;
        if text.last() == '`' {
            assert(whole[n as int] == '`');
            assert(whole[(n + 1) as int] == '`');
            assert(run(whole, n + 1, origin, max_x) == step(s, '`', n, origin, max_x));
            let t = run(whole, n + 1, origin, max_x)->Ok_0;
            assert(t.mode == ParsingMod::GetParam);
            assert(run(whole, n + 2, origin, max_x) == step(t, '`', n + 1, origin, max_x));
        } else {
            assert(whole[n as int] == text.last());
            assert(run(whole, n + 1, origin, max_x) == step(s, text.last(), n, origin, max_x));
        }
    }
}

/// A text whose escape characters are doubled raises no error of markup:
/// where the coordinate range can hold it, its layout succeeds.
pub proof fn lemma_escaped_text_is_laid_out(text: Seq<char>, origin: Vector2, size: Vector2)
    requires
        layout_fits(escaped(text).len(), origin, size),
    ensures
        layout(escaped(text), origin, size) is Ok,
{
    lemma_run_escaped(text, origin, origin.x + size.x);
}

} // verus!
