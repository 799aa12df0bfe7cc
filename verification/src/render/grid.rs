use crate::interface::box_drawing::{box_chars, BoxDrawing};
use crate::render::cache_glyph::{
    after_request, after_requests, slot_fits, CacheGlyph, CacheView, FontBackend,
    GlyphBitmapView, GlyphCacheError,
};
use crate::render::quad::{blank_quad, with_char, Quad};
use crate::util::buffer::filled;
use crate::util::rgba8::RGBA8;
use crate::util::uv_layout::UvLayout;
use crate::util::text::chars_of;
use crate::util::vector::Vector2;
use vstd::prelude::*;

verus! {

/// A rectangle of cells: columns `left` up to `right` and rows `bottom` up
/// to `top`, the upper bounds not included.
pub struct Rect {
    pub left: int,
    pub bottom: int,
    pub right: int,
    pub top: int,
}

/// The rectangle from `start` up to `end`, `end` not included.
pub open spec fn rect_from_to(start: Vector2, end: Vector2) -> Rect {
    Rect { left: start.x as int, bottom: start.y as int, right: end.x as int, top: end.y as int }
}

/// The smallest rectangle that holds the cell in column `ax` of row `ay`
/// and the cell in column `bx` of row `by`.
pub open spec fn rect_between(ax: int, ay: int, bx: int, by: int) -> Rect {
    Rect {
        left: if ax <= bx { ax } else { bx },
        bottom: if ay <= by { ay } else { by },
        right: if ax <= bx { bx + 1 } else { ax + 1 },
        top: if ay <= by { by + 1 } else { ay + 1 },
    }
}

/// The smallest rectangle that holds the cells at `a` and at `b`.
pub open spec fn rect_around(a: Vector2, b: Vector2) -> Rect {
    rect_between(a.x as int, a.y as int, b.x as int, b.y as int)
}

/// Whether the cell in column `x` of row `y` lies in the rectangle.
pub open spec fn rect_contains(r: Rect, x: int, y: int) -> bool {
    r.left <= x < r.right && r.bottom <= y < r.top
}

/// What can be done to each cell of a rectangle.
#[derive(Copy, Clone, Debug, PartialEq, Eq, Structural)]
pub enum CellOp {
    /// Writes one character.
    Char(char),
    /// Sets the foreground colour.
    Fg(RGBA8),
    /// Sets the background colour.
    Bg(RGBA8),
    /// Exchanges foreground and background.
    Inverse,
    /// Writes a space, white on black.
    Clear,
    /// Writes the outline of the rectangle in a line style; the cells
    /// inside the outline stay as they are.
    Outline(BoxDrawing),
}

/// The character that the outline of `r` puts in column `x` of row `y`, if
/// any. Rows count upward, so the lower corners lie in row `r.bottom`.
pub open spec fn outline_char(style: BoxDrawing, r: Rect, x: int, y: int) -> Option<char> {
    let chars = box_chars(style);
    let last_x = r.right - 1;
    let last_y = r.top - 1;
    if x != r.left && x != last_x && y != r.bottom && y != last_y {
        None
    } else if x == r.left && y == r.bottom {
        Some(chars.lower_left)
    } else if x == last_x && y == last_y {
        Some(chars.upper_right)
    } else if x == r.left && y == last_y {
        Some(chars.upper_left)
    } else if x == last_x && y == r.bottom {
        Some(chars.lower_right)
    } else if x == r.left || x == last_x {
        Some(chars.vertical)
    } else {
        Some(chars.horizontal)
    }
}

/// The cell `q`, in column `x` of row `y` of the rectangle `r`, after `op`.
pub open spec fn apply_op(op: CellOp, r: Rect, x: int, y: int, q: Quad) -> Quad {
    match op {
        CellOp::Char(c) => Quad { char: c, ..q },
        CellOp::Fg(color) => Quad { fg_color: color, ..q },
        CellOp::Bg(color) => Quad { bg_color: color, ..q },
        CellOp::Inverse => Quad { fg_color: q.bg_color, bg_color: q.fg_color, ..q },
        CellOp::Clear => blank_quad(),
        CellOp::Outline(style) => match outline_char(style, r, x, y) {
            Some(c) => Quad { char: c, ..q },
            None => q,
        },
    }
}

/// The column of the `i`-th cell of a grid `width` cells wide.
pub open spec fn column_of(i: int, width: int) -> int {
    i % width
}

/// The row of the `i`-th cell of a grid `width` cells wide; row 0 is the
/// bottom row.
pub open spec fn row_of(i: int, width: int) -> int {
    i / width
}

/// The cells of a grid `width` cells wide after `op` is done to each cell
/// of the rectangle `r`. What lies of `r` outside the grid is cut off.
pub open spec fn painted(cells: Seq<Quad>, width: int, r: Rect, op: CellOp) -> Seq<Quad> {
    Seq::new(
        cells.len(),
        |i: int|
            if rect_contains(r, column_of(i, width), row_of(i, width)) {
                apply_op(op, r, column_of(i, width), row_of(i, width), cells[i])
            } else {
                cells[i]
            },
    )
}

/// The cells of a grid `width` cells wide after `text` is written into row
/// `y` from column `x` on. What does not fit in the row is cut off.
pub open spec fn written(cells: Seq<Quad>, width: int, x: int, y: int, text: Seq<char>) -> Seq<
    Quad,
> {
    Seq::new(
        cells.len(),
        |i: int|
            if row_of(i, width) == y && x <= column_of(i, width) < x + text.len() {
                with_char(cells[i], text[column_of(i, width) - x])
            } else {
                cells[i]
            },
    )
}

/// The rectangle of the one cell in column `x` of row `y`.
pub open spec fn one_cell(x: int, y: int) -> Rect {
    Rect { left: x, bottom: y, right: x + 1, top: y + 1 }
}

/// Requests depend only on the glyphs of the characters asked for.
proof fn lemma_after_requests_extends(
    s: CacheView,
    chars: Seq<char>,
    glyphs: Seq<GlyphBitmapView>,
    longer: Seq<GlyphBitmapView>,
    k: nat,
)
    requires
        k <= glyphs.len() <= longer.len(),
        forall|i: int| 0 <= i < glyphs.len() ==> longer[i] == glyphs[i],
    ensures
        after_requests(s, chars, longer, k) == after_requests(s, chars, glyphs, k),
    decreases k,
{
    if k > 0 {
        lemma_after_requests_extends(s, chars, glyphs, longer, (k - 1) as nat);
    }
}

/// The place of a cell in its row and the row of a cell lie in the grid.
pub proof fn lemma_cell_coordinates(i: int, width: int, height: int)
    requires
        0 <= i < width * height,
        0 <= width,
    ensures
        0 <= column_of(i, width) < width,
        0 <= row_of(i, width) < height,
        i == row_of(i, width) * width + column_of(i, width),
{
    assert(width > 0) by (nonlinear_arith)
        requires
            0 < width * height,
            0 <= width,
    ;
    let x = i % width;
    let y = i / width;
    assert(i == y * width + x && 0 <= x < width) by (nonlinear_arith)
        requires
            x == i % width,
            y == i / width,
            width > 0,
    ;
    assert(0 <= y < height) by (nonlinear_arith)
        requires
            i == y * width + x,
            0 <= x < width,
            0 <= i < width * height,
    ;
}

/// The cell in column `x` of row `y` is the cell number `y * width + x`.
pub proof fn lemma_cell_index(x: int, y: int, width: int, height: int)
    requires
        0 <= x < width,
        0 <= y < height,
    ensures
        0 <= y * width + x < width * height,
        column_of(y * width + x, width) == x,
        row_of(y * width + x, width) == y,
{
    let i = y * width + x;
    assert(0 <= i < width * height) by (nonlinear_arith)
        requires
            i == y * width + x,
            0 <= x < width,
            0 <= y < height,
    ;
    lemma_cell_coordinates(i, width, height);
    let x2 = i % width;
    let y2 = i / width;
    assert(y2 == y && x2 == x) by (nonlinear_arith)
        requires
            i == y * width + x,
            i == y2 * width + x2,
            0 <= x < width,
            0 <= x2 < width,
    ;
}

/// The red, green, blue and alpha of a colour, numbered from 0 to 3.
pub open spec fn color_channel(color: RGBA8, k: int) -> u8 {
    if k == 0 {
        color.r
    } else if k == 1 {
        color.g
    } else if k == 2 {
        color.b
    } else {
        color.a
    }
}

/// The foreground colours of the cells as vertex attributes: four channels
/// for each of the four corners of each cell.
pub open spec fn fg_attributes(cells: Seq<Quad>) -> Seq<u8> {
    Seq::new(16 * cells.len(), |j: int| color_channel(cells[j / 16].fg_color, j % 4))
}

/// The background colours of the cells as vertex attributes: four channels
/// for each of the four corners of each cell.
pub open spec fn bg_attributes(cells: Seq<Quad>) -> Seq<u8> {
    Seq::new(16 * cells.len(), |j: int| color_channel(cells[j / 16].bg_color, j % 4))
}

/// The rectangle of no extent, for a glyph that has no slot.
pub open spec fn no_layout() -> UvLayout {
    UvLayout { min: (0, 0), max: (0, 0) }
}

/// The slot of the glyph of `c`, or the rectangle of no extent.
pub open spec fn glyph_layout(layouts: Map<char, UvLayout>, c: char) -> UvLayout {
    if layouts.contains_key(c) {
        layouts[c]
    } else {
        no_layout()
    }
}

/// The two coordinates of the four corners of a rectangle, numbered from 0
/// to 7: the corner `max`, the corner below it, the corner `min`, and the
/// corner above that.
pub open spec fn uv_corner(uv: UvLayout, k: int) -> u32 {
    if k == 0 || k == 2 {
        uv.max.0
    } else if k == 1 || k == 7 {
        uv.max.1
    } else if k == 4 || k == 6 {
        uv.min.0
    } else {
        uv.min.1
    }
}

/// The glyphs of the cells as vertex attributes: for each cell the corners
/// of its glyph's slot in the atlas.
pub open spec fn uv_attributes(cells: Seq<Quad>, layouts: Map<char, UvLayout>) -> Seq<u32> {
    Seq::new(
        8 * cells.len(),
        |j: int| uv_corner(glyph_layout(layouts, cells[j / 8].char), j % 8),
    )
}

/// The characters of the cells.
pub open spec fn cell_chars(cells: Seq<Quad>) -> Seq<char> {
    Seq::new(cells.len(), |i: int| cells[i].char)
}

/// What holds of a cell that was filled at random: an ASCII character on
/// opaque colours.
pub open spec fn is_shuffled(q: Quad) -> bool {
    q.char as u32 <= 127 && q.fg_color.a == 255 && q.bg_color.a == 255
}

/// The opaque colour whose red, green and blue are the three low bytes of
/// `bits`, the lowest first.
pub open spec fn color_from_bits(bits: u32) -> RGBA8 {
    RGBA8 {
        r: (bits % 256) as u8,
        g: (bits / 256 % 256) as u8,
        b: (bits / 65536 % 256) as u8,
        a: 255,
    }
}

/// The cell that three numbers stand for: the first gives an ASCII
/// character, the other two the colours.
pub open spec fn quad_from_bits(glyph: u32, fg: u32, bg: u32) -> Quad {
    Quad {
        char: ((glyph % 128) as u8) as char,
        fg_color: color_from_bits(fg),
        bg_color: color_from_bits(bg),
    }
}

/// `rand::random` for `u32`. Nothing is claimed of the number that comes
/// back.
#[verifier::external_body]
fn random_u32() -> u32 {
    rand::random::<u32>()
}

/// The opaque colour whose red, green and blue are the three low bytes of
/// `bits`.
fn color_of_bits(bits: u32) -> (color: RGBA8)
    ensures
        color == color_from_bits(bits),
{
    RGBA8 {
        r: (bits % 256) as u8,
        g: (bits / 256 % 256) as u8,
        b: (bits / 65536 % 256) as u8,
        a: 255,
    }
}

/// The cell that three numbers stand for.
pub fn quad_of_bits(glyph: u32, fg: u32, bg: u32) -> (q: Quad)
    ensures
        q == quad_from_bits(glyph, fg, bg),
        is_shuffled(q),
{
    Quad {
        char: ((glyph % 128) as u8) as char,
        fg_color: color_of_bits(fg),
        bg_color: color_of_bits(bg),
    }
}

/// Writes the corners of `uv` as the attributes of cell `i`.
fn write_uv(buffer: &mut Vec<u32>, i: usize, uv: UvLayout)
    requires
        8 * i + 8 <= old(buffer)@.len(),
    ensures
        final(buffer)@.len() == old(buffer)@.len(),
        forall|j: int|
            0 <= j < old(buffer)@.len() ==> #[trigger] final(buffer)@[j] == (if 8 * i <= j < 8 * i
                + 8 {
                uv_corner(uv, j - 8 * i)
            } else {
                old(buffer)@[j]
            }),
{
    let len = buffer.len();
    assert(8 * i + 8 <= len);
    let base: usize = 8 * i;
    buffer.set(base, uv.max.0);
    buffer.set(base + 1, uv.max.1);
    buffer.set(base + 2, uv.max.0);
    buffer.set(base + 3, uv.min.1);
    buffer.set(base + 4, uv.min.0);
    buffer.set(base + 5, uv.min.1);
    buffer.set(base + 6, uv.min.0);
    buffer.set(base + 7, uv.max.1);
}

/// Writes `color` as the attributes of the four corners of cell `i`.
fn write_color(buffer: &mut Vec<u8>, i: usize, color: RGBA8)
    requires
        16 * i + 16 <= old(buffer)@.len(),
    ensures
        final(buffer)@.len() == old(buffer)@.len(),
        forall|j: int|
            0 <= j < old(buffer)@.len() ==> #[trigger] final(buffer)@[j] == (if 16 * i <= j < 16
                * i + 16 {
                color_channel(color, (j - 16 * i) % 4)
            } else {
                old(buffer)@[j]
            }),
{
    let len = buffer.len();
    assert(16 * i + 16 <= len);
    let base: usize = 16 * i;
    let mut corner: usize = 0;
    while corner < 4
        invariant
            corner <= 4,
            base == 16 * i,
            base + 16 <= buffer@.len(),
            buffer@.len() == old(buffer)@.len(),
            forall|j: int|
                0 <= j < buffer@.len() ==> #[trigger] buffer@[j] == (if base <= j < base + 4
                    * corner {
                    color_channel(color, (j - base) % 4)
                } else {
                    old(buffer)@[j]
                }),
        decreases 4 - corner,
    {
        buffer.set(base + 4 * corner, color.r);
        buffer.set(base + 4 * corner + 1, color.g);
        buffer.set(base + 4 * corner + 2, color.b);
        buffer.set(base + 4 * corner + 3, color.a);
        corner += 1;
    }
}

/// What a [`Grid`] holds.
pub struct GridView {
    pub width: nat,
    pub height: nat,
    /// The cells, row by row from the bottom row up.
    pub cells: Seq<Quad>,
    /// For each cell the four corners of its glyph in the atlas.
    pub texture_coordinate: Seq<u32>,
    /// For each cell its foreground colour, once for each corner.
    pub fg_color: Seq<u8>,
    /// For each cell its background colour, once for each corner.
    pub bg_color: Seq<u8>,
    pub cache: CacheView,
}

/// A grid of cells of fixed size, with the vertex attributes that are
/// derived from the cells for each frame and the atlas of their glyphs.
pub struct Grid {
    width: u32,
    height: u32,
    quads: Vec<Quad>,
    texture_coordinate: Vec<u32>,
    fg_color: Vec<u8>,
    bg_color: Vec<u8>,
    cache_glyph: CacheGlyph,
}

impl View for Grid {
    type V = GridView;

    closed spec fn view(&self) -> GridView {
        GridView {
            width: self.width as nat,
            height: self.height as nat,
            cells: self.quads@,
            texture_coordinate: self.texture_coordinate@,
            fg_color: self.fg_color@,
            bg_color: self.bg_color@,
            cache: self.cache_glyph@,
        }
    }
}

/// The cell `q`, in column `x` of row `y` of the given rectangle, after `op`.
fn apply_cell(
    op: CellOp,
    left: i128,
    bottom: i128,
    right: i128,
    top: i128,
    x: i128,
    y: i128,
    q: Quad,
) -> (res: Quad)
    requires
        i128::MIN < right,
        i128::MIN < top,
    ensures
        res == apply_op(
            op,
            Rect { left: left as int, bottom: bottom as int, right: right as int, top: top as int },
            x as int,
            y as int,
            q,
        ),
{
    match op {
        CellOp::Char(c) => Quad { char: c, fg_color: q.fg_color, bg_color: q.bg_color },
        CellOp::Fg(color) => Quad { char: q.char, fg_color: color, bg_color: q.bg_color },
        CellOp::Bg(color) => Quad { char: q.char, fg_color: q.fg_color, bg_color: color },
        CellOp::Inverse => Quad { char: q.char, fg_color: q.bg_color, bg_color: q.fg_color },
        CellOp::Clear => Quad::blank(),
        CellOp::Outline(style) => {
            let (h_line, v_line, l_l_corner, u_l_corner, l_r_corner, u_r_corner) =
                BoxDrawing::get_char(style);
            let last_x = right - 1;
            let last_y = top - 1;
            if x != left && x != last_x && y != bottom && y != last_y {
                q
            } else {
                let c = if x == left && y == bottom {
                    l_l_corner
                } else if x == last_x && y == last_y {
                    u_r_corner
                } else if x == left && y == last_y {
                    u_l_corner
                } else if x == last_x && y == bottom {
                    l_r_corner
                } else if x == left || x == last_x {
                    v_line
                } else {
                    h_line
                };
                Quad { char: c, fg_color: q.fg_color, bg_color: q.bg_color }
            }
        },
    }
}

impl Grid {
    /// There is one cell for each place of the grid, the vertex attributes
    /// have room for every cell, and the atlas is well formed.
    pub closed spec fn wf(&self) -> bool {
        &&& self.quads@.len() == self.width * self.height
        &&& self.texture_coordinate@.len() == 8 * self.quads@.len()
        &&& self.fg_color@.len() == 16 * self.quads@.len()
        &&& self.bg_color@.len() == 16 * self.quads@.len()
        &&& self.cache_glyph.wf()
    }

    /// What well-formedness says of the view.
    pub proof fn lemma_wf(&self)
        requires
            self.wf(),
        ensures
            self@.cells.len() == self@.width * self@.height,
            self@.texture_coordinate.len() == 8 * self@.cells.len(),
            self@.fg_color.len() == 16 * self@.cells.len(),
            self@.bg_color.len() == 16 * self@.cells.len(),
    {
    }

    /// The number of columns.
    pub fn width(&self) -> (w: u32)
        ensures
            w == self@.width,
    {
        self.width
    }

    /// The number of rows.
    pub fn height(&self) -> (h: u32)
        ensures
            h == self@.height,
    {
        self.height
    }

    /// A cleared grid of `width` by `height` cells over the given atlas. The
    /// vertex attributes are those of the cleared cells.
    pub fn with_cache(width: u32, height: u32, cache_glyph: CacheGlyph) -> (grid: Self)
        requires
            16 * width * height <= usize::MAX,
            cache_glyph.wf(),
        ensures
            grid.wf(),
            grid@ == (GridView {
                width: width as nat,
                height: height as nat,
                cells: Seq::new((width * height) as nat, |i: int| blank_quad()),
                texture_coordinate: uv_attributes(grid@.cells, cache_glyph@.layouts),
                fg_color: fg_attributes(grid@.cells),
                bg_color: bg_attributes(grid@.cells),
                cache: cache_glyph@,
            }),
    {
        assert(width * height <= 16 * width * height) by (nonlinear_arith)
            requires
                0 <= width,
                0 <= height,
        ;
        assert(16 * (width * height) == 16 * width * height) by (nonlinear_arith);
        assert(width * height == (width as usize) * (height as usize));
        let count: usize = width as usize * height as usize;
        let mut grid = Grid {
            width,
            height,
            quads: filled(Quad::blank(), count),
            texture_coordinate: filled(0u32, 8 * count),
            fg_color: filled(0u8, 16 * count),
            bg_color: filled(0u8, 16 * count),
            cache_glyph,
        };
        grid.derive_attributes();
        grid
    }

    /// A cleared grid of `width` by `height` cells over an empty atlas of
    /// 1024 by 1024 pixels.
    pub fn new(width: u32, height: u32) -> (grid: Self)
        requires
            16 * width * height <= usize::MAX,
        ensures
            grid.wf(),
            grid@.width == width,
            grid@.height == height,
            grid@.cells == Seq::new((width * height) as nat, |i: int| blank_quad()),
            grid@.texture_coordinate == uv_attributes(grid@.cells, Map::empty()),
            grid@.fg_color == fg_attributes(grid@.cells),
            grid@.bg_color == bg_attributes(grid@.cells),
            grid@.cache.layouts == Map::<char, UvLayout>::empty(),
            grid@.cache.count == 0,
            grid@.cache.dirty,
    {
        Grid::with_cache(width, height, CacheGlyph::new())
    }

    /// Derives the vertex attributes from the cells and from the slots that
    /// the atlas holds, without asking the atlas for any new slot.
    fn derive_attributes(&mut self)
        requires
            old(self).wf(),
        ensures
            final(self).wf(),
            final(self)@ == (GridView {
                texture_coordinate: uv_attributes(old(self)@.cells, old(self)@.cache.layouts),
                fg_color: fg_attributes(old(self)@.cells),
                bg_color: bg_attributes(old(self)@.cells),
                ..old(self)@
            }),
    {
        let ghost before = self@;
        let n = self.quads.len();
        let mut i: usize = 0;
        while i < n
            invariant
                i <= n,
                n == self.quads@.len(),
                self.wf(),
                self@ == (GridView {
                    texture_coordinate: self@.texture_coordinate,
                    fg_color: self@.fg_color,
                    bg_color: self@.bg_color,
                    ..before
                }),
                forall|j: int|
                    0 <= j < 8 * i ==> #[trigger] self@.texture_coordinate[j] == uv_corner(
                        glyph_layout(before.cache.layouts, before.cells[j / 8].char),
                        j % 8,
                    ),
                forall|j: int|
                    0 <= j < 16 * i ==> #[trigger] self@.fg_color[j] == color_channel(
                        before.cells[j / 16].fg_color,
                        j % 4,
                    ),
                forall|j: int|
                    0 <= j < 16 * i ==> #[trigger] self@.bg_color[j] == color_channel(
                        before.cells[j / 16].bg_color,
                        j % 4,
                    ),
            decreases n - i,
        {
            let code = self.quads[i].char;
            let uv = match self.cache_glyph.peek_uv_layout(code) {
                Some(uv) => uv,
                None => UvLayout { min: (0, 0), max: (0, 0) },
            };
            let fg = self.quads[i].fg_color;
            let bg = self.quads[i].bg_color;
            write_uv(&mut self.texture_coordinate, i, uv);
            write_color(&mut self.fg_color, i, fg);
            write_color(&mut self.bg_color, i, bg);
            i += 1;
        }
        proof {
            assert(self@.texture_coordinate =~= uv_attributes(before.cells, before.cache.layouts));
            assert(self@.fg_color =~= fg_attributes(before.cells));
            assert(self@.bg_color =~= bg_attributes(before.cells));
        }
    }

    /// Derives the vertex attributes of every cell for the next frame. Each
    /// cell's glyph is asked of the atlas, in the order of the cells, which
    /// gives a slot to each character that has none while slots are left.
    /// The attributes are then those of the cells over the slots that the
    /// atlas holds at the end; a character for which no slot was left has
    /// the rectangle of no extent, and the result says that there is one.
    pub fn draw<F: FontBackend>(&mut self, font: &F) -> (res: Result<(), GlyphCacheError>)
        requires
            old(self).wf(),
        ensures
            final(self).wf(),
            exists|glyphs: Seq<GlyphBitmapView>|
                #![auto]
                glyphs.len() == old(self)@.cells.len() && final(self)@.cache == after_requests(
                    old(self)@.cache,
                    cell_chars(old(self)@.cells),
                    glyphs,
                    old(self)@.cells.len(),
                ),
            final(self)@ == (GridView {
                texture_coordinate: uv_attributes(old(self)@.cells, final(self)@.cache.layouts),
                fg_color: fg_attributes(old(self)@.cells),
                bg_color: bg_attributes(old(self)@.cells),
                cache: final(self)@.cache,
                ..old(self)@
            }),
            res is Ok <==> forall|i: int|
                0 <= i < old(self)@.cells.len() ==> final(self)@.cache.layouts.contains_key(
                    #[trigger] old(self)@.cells[i].char,
                ),
    {
        let ghost before = self@;
        let ghost chars = cell_chars(before.cells);
        let ghost mut glyphs: Seq<GlyphBitmapView> = Seq::empty();
        let n = self.quads.len();
        let mut failed = false;
        let mut i: usize = 0;
        while i < n
            invariant
                i <= n,
                n == self.quads@.len(),
                self.wf(),
                chars == cell_chars(before.cells),
                self@ == (GridView { cache: self@.cache, ..before }),
                glyphs.len() == i,
                self@.cache == after_requests(before.cache, chars, glyphs, i as nat),
                self@.cache.width == before.cache.width,
                self@.cache.height == before.cache.height,
                failed ==> !slot_fits(self@.cache.count, self@.cache.width, self@.cache.height),
                failed <==> exists|k: int|
                    0 <= k < i && !self@.cache.layouts.contains_key(#[trigger] before.cells[k].char),
            decreases n - i,
        {
            let code = self.quads[i].char;
            let ghost earlier = self@.cache;
            let answer = self.cache_glyph.get_uv_layout(font, code);
            proof {
                let glyph = choose|glyph: GlyphBitmapView|
                    self@.cache == after_request(earlier, code, glyph);
                let longer = glyphs.push(glyph);
                lemma_after_requests_extends(before.cache, chars, glyphs, longer, i as nat);
                glyphs = longer;
                assert(chars[i as int] == code);
                assert forall|k: int| 0 <= k < i implies (self@.cache.layouts.contains_key(
                    #[trigger] before.cells[k].char,
                ) == earlier.layouts.contains_key(before.cells[k].char)) by {}
            }
            if answer.is_err() {
                failed = true;
            }
            i += 1;
        }
        self.derive_attributes();
        if failed {
            Err(GlyphCacheError::AtlasFull)
        } else {
            Ok(())
        }
    }

    /// Fills every cell at random with an ASCII character on opaque colours.
    pub fn shuffle_glyph(&mut self)
        requires
            old(self).wf(),
        ensures
            final(self).wf(),
            final(self)@ == (GridView { cells: final(self)@.cells, ..old(self)@ }),
            final(self)@.cells.len() == old(self)@.cells.len(),
            forall|i: int|
                0 <= i < final(self)@.cells.len() ==> is_shuffled(#[trigger] final(self)@.cells[i]),
    {
        let ghost before = self@;
        let n = self.quads.len();
        let mut i: usize = 0;
        while i < n
            invariant
                i <= n,
                n == self.quads@.len(),
                self.wf(),
                self@ == (GridView { cells: self@.cells, ..before }),
                self@.cells.len() == before.cells.len(),
                forall|k: int| 0 <= k < i ==> is_shuffled(#[trigger] self@.cells[k]),
            decreases n - i,
        {
            let glyph = random_u32();
            let fg = random_u32();
            let bg = random_u32();
            let cell = quad_of_bits(glyph, fg, bg);
            self.quads.set(i, cell);
            i += 1;
        }
    }

    /// The cell in column `x` of row `y`, if the grid has one there.
    pub fn get(&self, x: i32, y: i32) -> (cell: Option<Quad>)
        requires
            self.wf(),
        ensures
            cell is Some <==> 0 <= x < self@.width && 0 <= y < self@.height,
            cell is Some ==> cell->Some_0 == self@.cells[y * self@.width + x],
    {
        if 0 <= x && (x as i64) < self.width as i64 && 0 <= y && (y as i64) < self.height as i64 {
            proof {
                lemma_cell_index(x as int, y as int, self.width as int, self.height as int);
                assert(0 <= y * self.width) by (nonlinear_arith)
                    requires
                        0 <= y,
                        0 <= self.width,
                ;
                assert(self.width * self.height == self.quads.len());
            }
            Some(self.quads[y as usize * self.width as usize + x as usize])
        } else {
            None
        }
    }

    /// The corners of each cell's glyph in the atlas, as last derived.
    pub fn texture_coordinate(&self) -> (buffer: &Vec<u32>)
        ensures
            buffer@ == self@.texture_coordinate,
    {
        &self.texture_coordinate
    }

    /// The foreground colour of each cell's corners, as last derived.
    pub fn fg_color(&self) -> (buffer: &Vec<u8>)
        ensures
            buffer@ == self@.fg_color,
    {
        &self.fg_color
    }

    /// The background colour of each cell's corners, as last derived.
    pub fn bg_color(&self) -> (buffer: &Vec<u8>)
        ensures
            buffer@ == self@.bg_color,
    {
        &self.bg_color
    }

    /// The atlas of the grid's glyphs.
    pub fn cache_glyph(&self) -> (cache: &CacheGlyph)
        ensures
            cache@ == self@.cache,
    {
        &self.cache_glyph
    }

    /// Says whether the atlas bitmap has changed since this was last asked,
    /// and marks it as handed out.
    pub fn update_texture(&mut self) -> (upload: bool)
        requires
            old(self).wf(),
        ensures
            final(self).wf(),
            upload == old(self)@.cache.dirty,
            final(self)@ == (GridView {
                cache: CacheView { dirty: false, ..old(self)@.cache },
                ..old(self)@
            }),
    {
        self.cache_glyph.update_texture()
    }

    /// Makes every cell a space, white on black.
    pub fn clear(&mut self)
        requires
            old(self).wf(),
        ensures
            final(self).wf(),
            final(self)@ == (GridView {
                cells: Seq::new(old(self)@.cells.len(), |i: int| blank_quad()),
                ..old(self)@
            }),
    {
        self.paint(0, 0, self.width as i128, self.height as i128, CellOp::Clear);
        proof {
            let before = old(self)@;
            assert forall|i: int| 0 <= i < before.cells.len() implies #[trigger] self@.cells[i]
                == blank_quad() by {
                lemma_cell_coordinates(i, before.width as int, before.height as int);
            }
            assert(self@.cells =~= Seq::new(before.cells.len(), |i: int| blank_quad()));
        }
    }

    /// Makes the character of every cell a space.
    pub fn clear_char(&mut self)
        requires
            old(self).wf(),
        ensures
            final(self).wf(),
            final(self)@ == (GridView {
                cells: Seq::new(
                    old(self)@.cells.len(),
                    |i: int| Quad { char: ' ', ..old(self)@.cells[i] },
                ),
                ..old(self)@
            }),
    {
        self.paint(0, 0, self.width as i128, self.height as i128, CellOp::Char(' '));
        proof {
            let before = old(self)@;
            assert forall|i: int| 0 <= i < before.cells.len() implies #[trigger] self@.cells[i]
                == (Quad { char: ' ', ..before.cells[i] }) by {
                lemma_cell_coordinates(i, before.width as int, before.height as int);
            }
            assert(self@.cells =~= Seq::new(
                before.cells.len(),
                |i: int| Quad { char: ' ', ..before.cells[i] },
            ));
        }
    }

    /// Makes the foreground of every cell white.
    pub fn clear_fg_color(&mut self)
        requires
            old(self).wf(),
        ensures
            final(self).wf(),
            final(self)@ == (GridView {
                cells: Seq::new(
                    old(self)@.cells.len(),
                    |i: int| Quad { fg_color: blank_quad().fg_color, ..old(self)@.cells[i] },
                ),
                ..old(self)@
            }),
    {
        let white = RGBA8 { r: 255, g: 255, b: 255, a: 255 };
        self.paint(0, 0, self.width as i128, self.height as i128, CellOp::Fg(white));
        proof {
            let before = old(self)@;
            assert forall|i: int| 0 <= i < before.cells.len() implies #[trigger] self@.cells[i]
                == (Quad { fg_color: blank_quad().fg_color, ..before.cells[i] }) by {
                lemma_cell_coordinates(i, before.width as int, before.height as int);
            }
            assert(self@.cells =~= Seq::new(
                before.cells.len(),
                |i: int| Quad { fg_color: blank_quad().fg_color, ..before.cells[i] },
            ));
        }
    }

    /// Makes the background of every cell black.
    pub fn clear_bg_color(&mut self)
        requires
            old(self).wf(),
        ensures
            final(self).wf(),
            final(self)@ == (GridView {
                cells: Seq::new(
                    old(self)@.cells.len(),
                    |i: int| Quad { bg_color: blank_quad().bg_color, ..old(self)@.cells[i] },
                ),
                ..old(self)@
            }),
    {
        let black = RGBA8 { r: 0, g: 0, b: 0, a: 255 };
        self.paint(0, 0, self.width as i128, self.height as i128, CellOp::Bg(black));
        proof {
            let before = old(self)@;
            assert forall|i: int| 0 <= i < before.cells.len() implies #[trigger] self@.cells[i]
                == (Quad { bg_color: blank_quad().bg_color, ..before.cells[i] }) by {
                lemma_cell_coordinates(i, before.width as int, before.height as int);
            }
            assert(self@.cells =~= Seq::new(
                before.cells.len(),
                |i: int| Quad { bg_color: blank_quad().bg_color, ..before.cells[i] },
            ));
        }
    }

    /// Writes `c` into each cell from `start` up to `end`, `end` not
    /// included; what lies outside the grid is cut off.
    pub fn write_from_to(&mut self, start: Vector2, end: Vector2, c: char)
        requires
            old(self).wf(),
        ensures
            final(self).wf(),
            final(self)@ == (GridView {
                cells: painted(
                    old(self)@.cells,
                    old(self)@.width as int,
                    rect_from_to(start, end),
                    CellOp::Char(c),
                ),
                ..old(self)@
            }),
    {
        self.paint(start.x as i128, start.y as i128, end.x as i128, end.y as i128, CellOp::Char(c));
    }

    /// Sets the foreground colour of each cell from `start` up to `end`,
    /// `end` not included; what lies outside the grid is cut off.
    pub fn set_fg_from_to(&mut self, start: Vector2, end: Vector2, color: RGBA8)
        requires
            old(self).wf(),
        ensures
            final(self).wf(),
            final(self)@ == (GridView {
                cells: painted(
                    old(self)@.cells,
                    old(self)@.width as int,
                    rect_from_to(start, end),
                    CellOp::Fg(color),
                ),
                ..old(self)@
            }),
    {
        self.paint(start.x as i128, start.y as i128, end.x as i128, end.y as i128, CellOp::Fg(color));
    }

    /// Sets the background colour of each cell from `start` up to `end`,
    /// `end` not included; what lies outside the grid is cut off.
    pub fn set_bg_from_to(&mut self, start: Vector2, end: Vector2, color: RGBA8)
        requires
            old(self).wf(),
        ensures
            final(self).wf(),
            final(self)@ == (GridView {
                cells: painted(
                    old(self)@.cells,
                    old(self)@.width as int,
                    rect_from_to(start, end),
                    CellOp::Bg(color),
                ),
                ..old(self)@
            }),
    {
        self.paint(start.x as i128, start.y as i128, end.x as i128, end.y as i128, CellOp::Bg(color));
    }

    /// Exchanges foreground and background in each cell from `start` up to
    /// `end`, `end` not included; what lies outside the grid is cut off.
    pub fn inverse_color_from_to(&mut self, start: Vector2, end: Vector2)
        requires
            old(self).wf(),
        ensures
            final(self).wf(),
            final(self)@ == (GridView {
                cells: painted(
                    old(self)@.cells,
                    old(self)@.width as int,
                    rect_from_to(start, end),
                    CellOp::Inverse,
                ),
                ..old(self)@
            }),
    {
        self.paint(start.x as i128, start.y as i128, end.x as i128, end.y as i128, CellOp::Inverse);
    }

    /// Exchanges foreground and background in the cell in column `x` of row
    /// `y`; a place outside the grid is left alone.
    pub fn inverse_color_at(&mut self, x: i32, y: i32)
        requires
            old(self).wf(),
        ensures
            final(self).wf(),
            final(self)@ == (GridView {
                cells: painted(
                    old(self)@.cells,
                    old(self)@.width as int,
                    one_cell(x as int, y as int),
                    CellOp::Inverse,
                ),
                ..old(self)@
            }),
    {
        self.paint(x as i128, y as i128, x as i128 + 1, y as i128 + 1, CellOp::Inverse);
    }

    /// Sets the background colour of the cell in column `x` of row `y`; a
    /// place outside the grid is left alone.
    pub fn switch_bg_at(&mut self, x: i32, y: i32, color: RGBA8)
        requires
            old(self).wf(),
        ensures
            final(self).wf(),
            final(self)@ == (GridView {
                cells: painted(
                    old(self)@.cells,
                    old(self)@.width as int,
                    one_cell(x as int, y as int),
                    CellOp::Bg(color),
                ),
                ..old(self)@
            }),
    {
        self.paint(x as i128, y as i128, x as i128 + 1, y as i128 + 1, CellOp::Bg(color));
    }

    /// Outlines the box whose opposite corners are the cells at `start` and
    /// at `end`, in whichever order they are given: corner characters in the
    /// four corner cells, line characters along the edges between them. The
    /// cells inside the box stay as they are; what lies outside the grid is
    /// cut off.
    pub fn write_box(&mut self, start: Vector2, end: Vector2, box_style: BoxDrawing)
        requires
            old(self).wf(),
        ensures
            final(self).wf(),
            final(self)@ == (GridView {
                cells: painted(
                    old(self)@.cells,
                    old(self)@.width as int,
                    rect_around(start, end),
                    CellOp::Outline(box_style),
                ),
                ..old(self)@
            }),
    {
        let left: i128 = if start.x <= end.x { start.x as i128 } else { end.x as i128 };
        let bottom: i128 = if start.y <= end.y { start.y as i128 } else { end.y as i128 };
        let right: i128 = if start.x <= end.x { end.x as i128 + 1 } else { start.x as i128 + 1 };
        let top: i128 = if start.y <= end.y { end.y as i128 + 1 } else { start.y as i128 + 1 };
        self.paint(left, bottom, right, top, CellOp::Outline(box_style));
    }

    /// Writes `text` into row `y` from column `x` on, one character to a
    /// cell. Characters that would fall outside the row are dropped; a row
    /// outside the grid takes none.
    pub fn write_at(&mut self, x: i32, y: i32, text: &str)
        requires
            old(self).wf(),
        ensures
            final(self).wf(),
            final(self)@ == (GridView {
                cells: written(
                    old(self)@.cells,
                    old(self)@.width as int,
                    x as int,
                    y as int,
                    text@,
                ),
                ..old(self)@
            }),
    {
        self.write_text(x as i64, y as i64, text);
    }

    /// Writes `text` as `write_at` does, at a place that may lie anywhere.
    pub fn write_text(&mut self, x: i64, y: i64, text: &str)
        requires
            old(self).wf(),
        ensures
            final(self).wf(),
            final(self)@ == (GridView {
                cells: written(
                    old(self)@.cells,
                    old(self)@.width as int,
                    x as int,
                    y as int,
                    text@,
                ),
                ..old(self)@
            }),
    {
        let chars = chars_of(text);
        let w: i128 = self.width as i128;
        let h: i128 = self.height as i128;
        let ghost before = self@;
        let room: i128 = w - x as i128;
        assert(before.width == w);
        if 0 <= y && (y as i128) < h && room > 0 && w > 0 {
            let k_from: i128 = if x < 0 { -(x as i128) } else { 0 };
            let k_to: i128 = if chars.len() as i128 >= room { room } else { chars.len() as i128 };
            let mut k: i128 = k_from;
            while k < k_to
                invariant
                    0 <= y < h,
                    w == self.width,
                    h == self.height,
                    w > 0,
                    0 <= k_from <= k,
                    k <= k_to || k == k_from,
                    k_from == (if x < 0 { -(x as int) } else { 0 }),
                    k_to == (if chars@.len() >= w - x { w - x } else { chars@.len() as int }),
                    chars@.len() <= usize::MAX,
                    w - x > 0,
                    chars@ == text@,
                    self.wf(),
                    self@ == (GridView { cells: self@.cells, ..before }),
                    self@.cells.len() == before.cells.len(),
                    forall|i: int|
                        0 <= i < before.cells.len() ==> #[trigger] self@.cells[i] == (if row_of(
                            i,
                            w as int,
                        ) == y && x <= column_of(i, w as int) < x + k {
                            with_char(before.cells[i], text@[column_of(i, w as int) - x])
                        } else {
                            before.cells[i]
                        }),
                decreases k_to - k,
            {
                let column: i128 = x as i128 + k;
                proof {
                    lemma_cell_index(column as int, y as int, w as int, h as int);
                    assert(0 <= y * w) by (nonlinear_arith)
                        requires
                            0 <= y,
                            0 <= w,
                    ;
                    assert(w * h == self.quads.len());
                }
                let index: usize = y as usize * w as usize + column as usize;
                let c = chars[k as usize];
                assert(c == text@[k as int]);
                let cell = Quad::written(self.quads[index], c);
                let ghost earlier = self@.cells;
                self.quads.set(index, cell);
                proof {
                    assert forall|i: int| 0 <= i < before.cells.len() implies #[trigger]
                        self@.cells[i] == (if row_of(i, w as int) == y && x <= column_of(
                        i,
                        w as int,
                    ) < x + k + 1 {
                        with_char(before.cells[i], text@[column_of(i, w as int) - x])
                    } else {
                        before.cells[i]
                    }) by {
                        lemma_cell_coordinates(i, w as int, h as int);
                        if i != index {
                            assert(self@.cells[i] == earlier[i]);
                        } else {
                            assert(index == y * w + column);
                            assert(self@.cells[i] == cell);
                            assert(cell == with_char(earlier[i], c));
                        }
                    }
                }
                k += 1;
            }
        }
        proof {
            let target = written(before.cells, before.width as int, x as int, y as int, text@);
            assert(target.len() == before.cells.len());
            assert forall|i: int| 0 <= i < before.cells.len() implies self@.cells[i]
                == target[i] by {
                lemma_cell_coordinates(i, w as int, h as int);
            }
            assert(self@.cells =~= target);
        }
    }

    /// Does `op` to each cell of the rectangle of columns `left` up to
    /// `right` and rows `bottom` up to `top`, the upper bounds not included;
    /// what lies outside the grid is cut off.
    pub fn paint(&mut self, left: i128, bottom: i128, right: i128, top: i128, op: CellOp)
        requires
            old(self).wf(),
        ensures
            final(self).wf(),
            final(self)@ == (GridView {
                cells: painted(
                    old(self)@.cells,
                    old(self)@.width as int,
                    Rect {
                        left: left as int,
                        bottom: bottom as int,
                        right: right as int,
                        top: top as int,
                    },
                    op,
                ),
                ..old(self)@
            }),
    {
        let w: i128 = self.width as i128;
        let h: i128 = self.height as i128;
        let x_from: i128 = if left > 0 { left } else { 0 };
        let x_to: i128 = if right < w { right } else { w };
        let y_from: i128 = if bottom > 0 { bottom } else { 0 };
        let y_to: i128 = if top < h { top } else { h };
        let ghost r = Rect {
            left: left as int,
            bottom: bottom as int,
            right: right as int,
            top: top as int,
        };
        let ghost before = self@;
        if x_from < x_to && y_from < y_to {
            let mut y: i128 = y_from;
            while y < y_to
                invariant
                    y_from <= y <= y_to,
                    0 <= x_from < x_to <= w,
                    0 <= y_from,
                    y_to <= h,
                    x_from >= left,
                    x_to <= right,
                    y_from >= bottom,
                    y_to <= top,
                    x_to == right || x_to == w,
                    x_from == left || x_from == 0,
                    w == self.width,
                    h == self.height,
                    self.width == before.width,
                    r == (Rect {
                        left: left as int,
                        bottom: bottom as int,
                        right: right as int,
                        top: top as int,
                    }),
                    self.wf(),
                    self@ == (GridView { cells: self@.cells, ..before }),
                    self@.cells.len() == before.cells.len(),
                    forall|i: int|
                        0 <= i < before.cells.len() ==> #[trigger] self@.cells[i] == (if rect_contains(
                            r,
                            column_of(i, w as int),
                            row_of(i, w as int),
                        ) && row_of(i, w as int) < y {
                            apply_op(
                                op,
                                r,
                                column_of(i, w as int),
                                row_of(i, w as int),
                                before.cells[i],
                            )
                        } else {
                            before.cells[i]
                        }),
                decreases y_to - y,
            {
                let mut x: i128 = x_from;
                while x < x_to
                    invariant
                        x_from <= x <= x_to,
                        y_from <= y < y_to,
                        0 <= x_from < x_to <= w,
                        0 <= y_from,
                        y_to <= h,
                        x_from >= left,
                        x_to <= right,
                        y_from >= bottom,
                        y_to <= top,
                        x_to == right || x_to == w,
                        x_from == left || x_from == 0,
                        w == self.width,
                        h == self.height,
                        self.width == before.width,
                        r == (Rect {
                            left: left as int,
                            bottom: bottom as int,
                            right: right as int,
                            top: top as int,
                        }),
                        self.wf(),
                        self@ == (GridView { cells: self@.cells, ..before }),
                        self@.cells.len() == before.cells.len(),
                        forall|i: int|
                            0 <= i < before.cells.len() ==> #[trigger] self@.cells[i]
                                == (if rect_contains(
                                r,
                                column_of(i, w as int),
                                row_of(i, w as int),
                            ) && (row_of(i, w as int) < y || (row_of(i, w as int) == y
                                && column_of(i, w as int) < x)) {
                                apply_op(
                                    op,
                                    r,
                                    column_of(i, w as int),
                                    row_of(i, w as int),
                                    before.cells[i],
                                )
                            } else {
                                before.cells[i]
                            }),
                    decreases x_to - x,
                {
                    proof {
                        lemma_cell_index(x as int, y as int, w as int, h as int);
                        assert(0 <= y * w) by (nonlinear_arith)
                            requires
                                0 <= y,
                                0 <= w,
                        ;
                        assert(w * h == self.quads.len());
                    }
                    let index: usize = y as usize * w as usize + x as usize;
                    let cell = apply_cell(op, left, bottom, right, top, x, y, self.quads[index]);
                    let ghost earlier = self@.cells;
                    self.quads.set(index, cell);
                    proof {
                        assert forall|i: int| 0 <= i < before.cells.len() implies #[trigger]
                            self@.cells[i] == (if rect_contains(
                            r,
                            column_of(i, w as int),
                            row_of(i, w as int),
                        ) && (row_of(i, w as int) < y || (row_of(i, w as int) == y && column_of(
                            i,
                            w as int,
                        ) < x + 1)) {
                            apply_op(
                                op,
                                r,
                                column_of(i, w as int),
                                row_of(i, w as int),
                                before.cells[i],
                            )
                        } else {
                            before.cells[i]
                        }) by {
                            lemma_cell_coordinates(i, w as int, h as int);
                            if i != index {
                                assert(self@.cells[i] == earlier[i]);
                            }
                        }
                    }
                    x += 1;
                }
                proof {
                    assert forall|i: int| 0 <= i < before.cells.len() implies #[trigger]
                        self@.cells[i] == (if rect_contains(
                        r,
                        column_of(i, w as int),
                        row_of(i, w as int),
                    ) && row_of(i, w as int) < y + 1 {
                        apply_op(
                            op,
                            r,
                            column_of(i, w as int),
                            row_of(i, w as int),
                            before.cells[i],
                        )
                    } else {
                        before.cells[i]
                    }) by {
                        lemma_cell_coordinates(i, w as int, h as int);
                    }
                }
                y += 1;
            }
        }
        proof {
            let target = painted(before.cells, before.width as int, r, op);
            assert forall|i: int| 0 <= i < before.cells.len() implies self@.cells[i]
                == target[i] by {
                lemma_cell_coordinates(i, w as int, h as int);
            }
            assert(self@.cells =~= target);
        }
    }
}

/// What `write_at` leaves in each cell of the grid: a cell of row `y` under
/// the text holds the character written there and keeps its colours; every
/// other cell, those of the rows above and below included, is as before.
/// So the text is cut off exactly at the edges of its row.
pub proof fn lemma_write_at_cell(
    cells: Seq<Quad>,
    width: int,
    height: int,
    x: int,
    y: int,
    text: Seq<char>,
    column: int,
    row: int,
)
    requires
        cells.len() == width * height,
        0 <= column < width,
        0 <= row < height,
    ensures
        0 <= row * width + column < cells.len(),
        written(cells, width, x, y, text)[row * width + column] == (if row == y && x <= column < x
            + text.len() {
            with_char(cells[row * width + column], text[column - x])
        } else {
            cells[row * width + column]
        }),
{
    lemma_cell_index(column, row, width, height);
}

/// A text written wholly outside the grid changes nothing.
pub proof fn lemma_write_at_outside(
    cells: Seq<Quad>,
    width: int,
    height: int,
    x: int,
    y: int,
    text: Seq<char>,
)
    requires
        cells.len() == width * height,
        0 <= width,
        y < 0 || y >= height || x >= width || x + text.len() <= 0,
    ensures
        written(cells, width, x, y, text) == cells,
{
    assert forall|i: int| 0 <= i < cells.len() implies written(cells, width, x, y, text)[i]
        == cells[i] by {
        lemma_cell_coordinates(i, width, height);
    }
    assert(written(cells, width, x, y, text) =~= cells);
}

/// A box is outlined in the same way whichever of its corners are given,
/// and in whichever order.
pub proof fn lemma_write_box_any_corners(
    cells: Seq<Quad>,
    width: int,
    a: Vector2,
    b: Vector2,
    style: BoxDrawing,
)
    ensures
        painted(cells, width, rect_around(b, a), CellOp::Outline(style)) == painted(
            cells,
            width,
            rect_around(a, b),
            CellOp::Outline(style),
        ),
        painted(
            cells,
            width,
            rect_around(Vector2 { x: a.x, y: b.y }, Vector2 { x: b.x, y: a.y }),
            CellOp::Outline(style),
        ) == painted(cells, width, rect_around(a, b), CellOp::Outline(style)),
{
    assert(rect_around(b, a) == rect_around(a, b));
    assert(rect_around(Vector2 { x: a.x, y: b.y }, Vector2 { x: b.x, y: a.y }) == rect_around(
        a,
        b,
    ));
}

/// Exchanging foreground and background twice in the same rectangle leaves
/// every cell as it was.
pub proof fn lemma_inverse_twice(cells: Seq<Quad>, width: int, r: Rect)
    ensures
        painted(painted(cells, width, r, CellOp::Inverse), width, r, CellOp::Inverse) == cells,
{
    assert(painted(painted(cells, width, r, CellOp::Inverse), width, r, CellOp::Inverse)
        =~= cells);
}

} // verus!
