use crate::util::rgba8::RGBA8;
use vstd::prelude::*;

verus! {

/// One cell of the grid: a character and the two colours it is drawn in.
#[derive(Copy, Clone, Debug, PartialEq, Eq, Structural)]
pub struct Quad {
    pub char: char,
    pub fg_color: RGBA8,
    pub bg_color: RGBA8,
}

/// The cell of a cleared grid: a space, white on black.
pub open spec fn blank_quad() -> Quad {
    Quad {
        char: ' ',
        fg_color: RGBA8 { r: 255, g: 255, b: 255, a: 255 },
        bg_color: RGBA8 { r: 0, g: 0, b: 0, a: 255 },
    }
}

/// The cell `q` with the character `c` in it.
pub open spec fn with_char(q: Quad, c: char) -> Quad {
    Quad { char: c, ..q }
}

impl Quad {
    /// The cell of a cleared grid.
    pub fn blank() -> (q: Self)
        ensures
            q == blank_quad(),
    {
        Quad {
            char: ' ',
            fg_color: RGBA8 { r: 255, g: 255, b: 255, a: 255 },
            bg_color: RGBA8 { r: 0, g: 0, b: 0, a: 255 },
        }
    }

    /// The cell with the character `c` in it.
    pub fn written(q: Quad, c: char) -> (cell: Quad)
        ensures
            cell == with_char(q, c),
    {
        Quad { char: c, fg_color: q.fg_color, bg_color: q.bg_color }
    }

    #[inline]
    pub fn switch_char(&mut self, char: char)
        ensures
            *final(self) == (Quad { char, ..*old(self) }),
    {
        self.char = char;
    }

    #[inline]
    pub fn switch_fg_color(&mut self, color: RGBA8)
        ensures
            *final(self) == (Quad { fg_color: color, ..*old(self) }),
    {
        self.fg_color = color;
    }

    #[inline]
    pub fn switch_bg_color(&mut self, color: RGBA8)
        ensures
            *final(self) == (Quad { bg_color: color, ..*old(self) }),
    {
        self.bg_color = color;
    }
}

} // verus!
