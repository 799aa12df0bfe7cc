use crate::util::buffer::filled;
use crate::util::rgba8::RGBA8;
use crate::util::uv_layout::UvLayout;
use std::collections::HashMap;
use vstd::prelude::*;

verus! {

broadcast use vstd::std_specs::hash::group_hash_axioms;

/// One pixel of a rasterized glyph, relative to the glyph's bounding box.
#[derive(Copy, Clone, Debug, PartialEq, Eq, Structural)]
pub struct GlyphPixel {
    pub x: u32,
    pub y: u32,
    /// Whether the glyph covers the pixel.
    pub ink: bool,
}

/// A rasterized glyph: the corner of its bounding box, measured from the
/// pen position on the line of the font's ascent, and its pixels.
#[derive(Clone, Debug)]
pub struct GlyphBitmap {
    pub min_x: i32,
    pub min_y: i32,
    pub pixels: Vec<GlyphPixel>,
}

/// What a [`GlyphBitmap`] holds.
pub struct GlyphBitmapView {
    pub min_x: int,
    pub min_y: int,
    pub pixels: Seq<GlyphPixel>,
}

impl View for GlyphBitmap {
    type V = GlyphBitmapView;

    open spec fn view(&self) -> GlyphBitmapView {
        GlyphBitmapView {
            min_x: self.min_x as int,
            min_y: self.min_y as int,
            pixels: self.pixels@,
        }
    }
}

/// Where glyphs come from.
pub trait FontBackend {
    /// Rasterizes the glyph of `c` at the atlas's pixel scale.
    fn rasterize(&self, c: char) -> GlyphBitmap;
}

/// The one way in which the atlas can fail.
#[derive(Copy, Clone, Debug, PartialEq, Eq, Structural)]
pub enum GlyphCacheError {
    /// Every slot of the atlas is taken.
    AtlasFull,
}

/// What a [`CacheGlyph`] holds.
pub struct CacheView {
    /// The slot of each code point that was asked for.
    pub layouts: Map<char, UvLayout>,
    /// The atlas bitmap, row by row.
    pub pixels: Seq<RGBA8>,
    pub width: nat,
    pub height: nat,
    /// The number of slots taken.
    pub count: nat,
    /// Whether the bitmap has changed since it was last handed out.
    pub dirty: bool,
}

/// The pixel of a slot that holds ink.
pub open spec fn ink_color() -> RGBA8 {
    RGBA8 { r: 255, g: 255, b: 255, a: 255 }
}

/// The pixel of a slot that holds none.
pub open spec fn blank_color() -> RGBA8 {
    RGBA8 { r: 0, g: 0, b: 0, a: 255 }
}

/// The column of the first pixel of slot `n` in an atlas `width` pixels wide.
pub open spec fn slot_x(n: nat, width: nat) -> int {
    ((n * 8) as int) % (width as int)
}

/// The row of the first pixel of slot `n` in an atlas `width` pixels wide.
pub open spec fn slot_y(n: nat, width: nat) -> int {
    ((n * 8) as int) / (width as int) * 16
}

/// Whether slot `n` lies inside the atlas.
pub open spec fn slot_fits(n: nat, width: nat, height: nat) -> bool {
    n < u32::MAX && slot_y(n, width) + 16 <= height
}

/// The rectangle of slot `n`.
pub open spec fn slot_layout(n: nat, width: nat) -> UvLayout {
    UvLayout {
        min: (slot_x(n, width) as u32, slot_y(n, width) as u32),
        max: ((slot_x(n, width) + 8) as u32, (slot_y(n, width) + 16) as u32),
    }
}

/// The column, inside a slot, of a glyph pixel.
pub open spec fn pixel_column(min_x: int, p: GlyphPixel) -> int {
    p.x + (if min_x < 0 {
        -min_x
    } else {
        min_x
    })
}

/// The row, inside a slot, of a glyph pixel; rows count upward.
pub open spec fn pixel_row(min_y: int, p: GlyphPixel) -> int {
    15 - (p.y + min_y)
}

/// The bitmap after one glyph pixel is drawn into the slot at `(x0, y0)`.
/// A pixel that falls outside the slot is dropped.
pub open spec fn draw_pixel(
    pixels: Seq<RGBA8>,
    width: nat,
    x0: int,
    y0: int,
    min_x: int,
    min_y: int,
    p: GlyphPixel,
) -> Seq<RGBA8> {
    let column = pixel_column(min_x, p);
    let row = pixel_row(min_y, p);
    if 0 <= column < 8 && 0 <= row < 16 {
        pixels.update(
            (x0 + column) + (y0 + row) * width,
            if p.ink {
                ink_color()
            } else {
                blank_color()
            },
        )
    } else {
        pixels
    }
}

/// The bitmap after the first `k` pixels of a glyph are drawn, in order,
/// into the slot at `(x0, y0)`.
pub open spec fn draw_glyph(
    pixels: Seq<RGBA8>,
    width: nat,
    x0: int,
    y0: int,
    min_x: int,
    min_y: int,
    glyph: Seq<GlyphPixel>,
    k: nat,
) -> Seq<RGBA8>
    decreases k,
{
    if k == 0 {
        pixels
    } else {
        draw_pixel(
            draw_glyph(pixels, width, x0, y0, min_x, min_y, glyph, (k - 1) as nat),
            width,
            x0,
            y0,
            min_x,
            min_y,
            glyph[k - 1],
        )
    }
}

/// The atlas after the glyph of `c` is put into the next free slot.
pub open spec fn with_glyph(s: CacheView, c: char, glyph: GlyphBitmapView) -> CacheView {
    CacheView {
        layouts: s.layouts.insert(c, slot_layout(s.count, s.width)),
        pixels: draw_glyph(
            s.pixels,
            s.width,
            slot_x(s.count, s.width),
            slot_y(s.count, s.width),
            glyph.min_x,
            glyph.min_y,
            glyph.pixels,
            glyph.pixels.len(),
        ),
        count: s.count + 1,
        dirty: true,
        ..s
    }
}

/// The atlas after a request for the glyph of `c`, where the font would
/// rasterize it as given. A code point that has a slot leaves the atlas as
/// it is; so does one that has none when no slot is left.
pub open spec fn after_request(s: CacheView, c: char, glyph: GlyphBitmapView) -> CacheView {
    if s.layouts.contains_key(c) || !slot_fits(s.count, s.width, s.height) {
        s
    } else {
        with_glyph(s, c, glyph)
    }
}

/// The number of the slot at a rectangle in an atlas `width` pixels wide.
pub open spec fn slot_number(layout: UvLayout, width: nat) -> int {
    (layout.min.1 / 16) * (width as int / 8) + layout.min.0 / 8
}

/// Every recorded rectangle is a slot that was handed out, and no two code
/// points share a slot.
pub open spec fn slots_in_order(v: CacheView) -> bool {
    &&& forall|c: char|
        #![trigger v.layouts[c]]
        v.layouts.contains_key(c) ==> {
            &&& 0 <= slot_number(v.layouts[c], v.width) < v.count
            &&& v.layouts[c] == slot_layout(slot_number(v.layouts[c], v.width) as nat, v.width)
        }
    &&& forall|c: char, d: char|
        #![trigger v.layouts[c], v.layouts[d]]
        v.layouts.contains_key(c) && v.layouts.contains_key(d) && c != d ==> slot_number(
            v.layouts[c],
            v.width,
        ) != slot_number(v.layouts[d], v.width)
}

/// The atlas is cut into whole slots, of which those taken lie inside it.
pub open spec fn atlas_in_order(v: CacheView) -> bool {
    &&& v.width >= 8
    &&& v.width % 8 == 0
    &&& v.width <= u32::MAX
    &&& v.height <= u32::MAX
    &&& v.count > 0 ==> slot_fits((v.count - 1) as nat, v.width, v.height)
    &&& slots_in_order(v)
}

/// A glyph of no pixels.
pub open spec fn no_glyph() -> GlyphBitmapView {
    GlyphBitmapView { min_x: 0, min_y: 0, pixels: Seq::empty() }
}

/// The atlas after requests for the glyphs of the first `k` of `chars`, in
/// order, where the font would rasterize the `i`-th as `glyphs[i]`.
pub open spec fn after_requests(
    s: CacheView,
    chars: Seq<char>,
    glyphs: Seq<GlyphBitmapView>,
    k: nat,
) -> CacheView
    decreases k,
{
    if k == 0 {
        s
    } else {
        after_request(after_requests(s, chars, glyphs, (k - 1) as nat), chars[k - 1], glyphs[k - 1])
    }
}

/// The answer to a request for the glyph of `c`: its slot, old or new, or
/// the error when it has none and no slot is left.
pub open spec fn answer(s: CacheView, c: char) -> Result<UvLayout, GlyphCacheError> {
    if s.layouts.contains_key(c) {
        Ok(s.layouts[c])
    } else if slot_fits(s.count, s.width, s.height) {
        Ok(slot_layout(s.count, s.width))
    } else {
        Err(GlyphCacheError::AtlasFull)
    }
}

/// An atlas of glyphs: a bitmap of fixed size, cut into slots of 8 by 16
/// pixels that are handed out in raster order and never taken back.
pub struct CacheGlyph {
    char_to_rect: HashMap<u32, UvLayout>,
    img: Vec<RGBA8>,
    img_width: u32,
    img_height: u32,
    nbr_glyph: u32,
    is_dirty: bool,
}

impl View for CacheGlyph {
    type V = CacheView;

    closed spec fn view(&self) -> CacheView {
        CacheView {
            layouts: Map::new(
                |c: char| self.char_to_rect@.contains_key(c as u32),
                |c: char| self.char_to_rect@[c as u32],
            ),
            pixels: self.img@,
            width: self.img_width as nat,
            height: self.img_height as nat,
            count: self.nbr_glyph as nat,
            dirty: self.is_dirty,
        }
    }
}

/// A slot starts at a multiple of eight pixels, at least eight pixels before
/// the right edge of an atlas whose width is a multiple of eight.
proof fn lemma_slot_x_in_row(n: nat, width: nat)
    requires
        width >= 8,
        width % 8 == 0,
    ensures
        0 <= slot_x(n, width) <= width - 8,
        0 <= slot_y(n, width),
{
    let w = width as int;
    let a = (n * 8) as int;
    let x = a % w;
    let q = a / w;
    assert(a == q * w + x && 0 <= x < w) by (nonlinear_arith)
        requires
            x == a % w,
            q == a / w,
            w > 0,
    ;
    let k = w / 8;
    assert(w == k * 8);
    assert(x == 8 * (n - q * k)) by (nonlinear_arith)
        requires
            a == n * 8,
            a == q * w + x,
            w == k * 8,
    ;
    assert(q >= 0) by (nonlinear_arith)
        requires
            a >= 0,
            w > 0,
            q == a / w,
    ;
}

/// Two characters that differ have code points that differ.
proof fn lemma_code_points_differ(c: char, d: char)
    ensures
        c != d ==> c as u32 != d as u32,
{
}

/// The rectangle of the `n`-th slot is that of no other slot.
pub proof fn lemma_slot_number(n: nat, width: nat, height: nat)
    requires
        width >= 8,
        width % 8 == 0,
        width <= u32::MAX,
        height <= u32::MAX,
        slot_fits(n, width, height),
    ensures
        slot_number(slot_layout(n, width), width) == n,
{
    lemma_slot_x_in_row(n, width);
    let w = width as int;
    let a = (n * 8) as int;
    let x = a % w;
    let q = a / w;
    let k = w / 8;
    assert(a == q * w + x && 0 <= x < w) by (nonlinear_arith)
        requires
            x == a % w,
            q == a / w,
            w > 0,
    ;
    assert(w == k * 8);
    assert(x == 8 * (n - q * k)) by (nonlinear_arith)
        requires
            a == n * 8,
            a == q * w + x,
            w == k * 8,
    ;
    assert((q * 16) / 16 == q);
    assert((8 * (n - q * k)) / 8 == n - q * k);
    assert(q * k + (n - q * k) == n);
}

/// A slot that fits has every slot before it inside the atlas too.
proof fn lemma_earlier_slot_fits(m: nat, n: nat, width: nat, height: nat)
    requires
        m <= n,
        width > 0,
        slot_fits(n, width, height),
    ensures
        slot_fits(m, width, height),
{
    let w = width as int;
    assert((m * 8) as int / w <= (n * 8) as int / w) by (nonlinear_arith)
        requires
            m <= n,
            w > 0,
    ;
}

/// A request leaves every recorded slot as it is, and leaves the atlas in
/// order: a slot, once given, is never given again.
pub proof fn lemma_request_keeps_order(s: CacheView, c: char, glyph: GlyphBitmapView)
    requires
        atlas_in_order(s),
    ensures
        atlas_in_order(after_request(s, c, glyph)),
        forall|d: char|
            s.layouts.contains_key(d) ==> after_request(s, c, glyph).layouts.contains_key(d)
                && #[trigger] after_request(s, c, glyph).layouts[d] == s.layouts[d],
{
    let t = after_request(s, c, glyph);
    if !s.layouts.contains_key(c) && slot_fits(s.count, s.width, s.height) {
        lemma_slot_number(s.count, s.width, s.height);
        assert forall|d: char| #![trigger t.layouts[d]] t.layouts.contains_key(d) implies {
            &&& 0 <= slot_number(t.layouts[d], t.width) < t.count
            &&& t.layouts[d] == slot_layout(slot_number(t.layouts[d], t.width) as nat, t.width)
        } by {
            if d != c {
                assert(t.layouts[d] == s.layouts[d]);
            }
        }
        assert forall|d: char, e: char|
            #![trigger t.layouts[d], t.layouts[e]]
            t.layouts.contains_key(d) && t.layouts.contains_key(e) && d != e implies slot_number(
            t.layouts[d],
            t.width,
        ) != slot_number(t.layouts[e], t.width) by {
            if d != c {
                assert(t.layouts[d] == s.layouts[d]);
            }
            if e != c {
                assert(t.layouts[e] == s.layouts[e]);
            }
        }
    }
}

/// Every recorded rectangle lies inside the atlas.
pub proof fn lemma_recorded_slot_lies_in_atlas(v: CacheView, c: char)
    requires
        atlas_in_order(v),
        v.layouts.contains_key(c),
    ensures
        v.layouts[c].min.0 + 8 == v.layouts[c].max.0,
        v.layouts[c].min.1 + 16 == v.layouts[c].max.1,
        v.layouts[c].max.0 <= v.width,
        v.layouts[c].max.1 <= v.height,
{
    let n = slot_number(v.layouts[c], v.width) as nat;
    lemma_earlier_slot_fits(n, (v.count - 1) as nat, v.width, v.height);
    lemma_slot_x_in_row(n, v.width);
}

/// A pixel inside a slot that fits lies inside the bitmap.
proof fn lemma_pixel_in_bitmap(x: int, y: int, width: int, height: int)
    requires
        0 <= x < width,
        0 <= y < height,
    ensures
        0 <= x + y * width < width * height,
        0 <= y * width <= width * height,
{
    assert(x + y * width < width * height) by (nonlinear_arith)
        requires
            0 <= x < width,
            0 <= y < height,
    ;
    assert(0 <= y * width <= width * height) by (nonlinear_arith)
        requires
            0 <= y < height,
            0 < width,
    ;
}

impl CacheGlyph {
    /// The atlas is cut into whole slots and its bitmap has one pixel for
    /// each place.
    pub closed spec fn wf(&self) -> bool {
        &&& self.img@.len() == self.img_width * self.img_height
        &&& atlas_in_order(self@)
    }

    /// What well-formedness says of the view.
    pub proof fn lemma_wf(&self)
        requires
            self.wf(),
        ensures
            self@.pixels.len() == self@.width * self@.height,
            atlas_in_order(self@),
    {
    }

    /// An atlas of `width` by `height` pixels with no glyph in it: every
    /// pixel is blank, and the bitmap is due to be handed out.
    pub fn with_size(width: u32, height: u32) -> (cache: Self)
        requires
            width >= 8,
            width % 8 == 0,
            width * height <= usize::MAX,
        ensures
            cache.wf(),
            cache@ == (CacheView {
                layouts: Map::empty(),
                pixels: Seq::new((width * height) as nat, |i: int| blank_color()),
                width: width as nat,
                height: height as nat,
                count: 0,
                dirty: true,
            }),
    {
        assert(width * height == (width as usize) * (height as usize));
        let img = filled(RGBA8 { r: 0, g: 0, b: 0, a: 255 }, width as usize * height as usize);
        let cache = CacheGlyph {
            char_to_rect: HashMap::new(),
            img,
            img_width: width,
            img_height: height,
            nbr_glyph: 0,
            is_dirty: true,
        };
        proof {
            assert(cache@.layouts =~= Map::<char, UvLayout>::empty());
        }
        cache
    }

    /// An atlas of 1024 by 1024 pixels with no glyph in it.
    pub fn new() -> (cache: Self)
        ensures
            cache.wf(),
            cache@.layouts == Map::<char, UvLayout>::empty(),
            cache@.pixels == Seq::new((1024 * 1024) as nat, |i: int| blank_color()),
            cache@.width == 1024,
            cache@.height == 1024,
            cache@.count == 0,
            cache@.dirty,
    {
        CacheGlyph::with_size(1024, 1024)
    }

    /// The width of the bitmap, in pixels.
    pub fn width(&self) -> (w: u32)
        ensures
            w == self@.width,
    {
        self.img_width
    }

    /// The height of the bitmap, in pixels.
    pub fn height(&self) -> (h: u32)
        ensures
            h == self@.height,
    {
        self.img_height
    }

    /// The number of slots taken.
    pub fn glyph_count(&self) -> (n: u32)
        ensures
            n == self@.count,
    {
        self.nbr_glyph
    }

    /// The bitmap, row by row.
    pub fn pixels(&self) -> (p: &Vec<RGBA8>)
        ensures
            p@ == self@.pixels,
    {
        &self.img
    }

    /// The slot of the glyph of `c`, if it has one.
    pub fn peek_uv_layout(&self, c: char) -> (layout: Option<UvLayout>)
        ensures
            layout is Some <==> self@.layouts.contains_key(c),
            layout is Some ==> layout->Some_0 == self@.layouts[c],
    {
        match self.char_to_rect.get(&(c as u32)) {
            Some(layout) => Some(*layout),
            None => None,
        }
    }

    /// Says whether the bitmap has changed since this was last asked, and
    /// marks it as handed out; the caller then owes its texture an upload.
    pub fn update_texture(&mut self) -> (upload: bool)
        requires
            old(self).wf(),
        ensures
            final(self).wf(),
            upload == old(self)@.dirty,
            final(self)@ == (CacheView { dirty: false, ..old(self)@ }),
    {
        let upload = self.is_dirty;
        self.is_dirty = false;
        upload
    }

    /// Draws the rasterized glyph of `c` into the next free slot, which must
    /// lie inside the atlas, and records the slot.
    fn gen_new_layout(&mut self, c: char, bitmap: &GlyphBitmap) -> (layout: UvLayout)
        requires
            old(self).wf(),
            !old(self)@.layouts.contains_key(c),
            slot_fits(old(self)@.count, old(self)@.width, old(self)@.height),
        ensures
            final(self).wf(),
            layout == slot_layout(old(self)@.count, old(self)@.width),
            final(self)@ == with_glyph(old(self)@, c, bitmap@),
    {
        let width: u64 = self.img_width as u64;
        let height: u64 = self.img_height as u64;
        let cursor: u64 = self.nbr_glyph as u64 * 8;
        let x_o: u64 = cursor % width;
        let y_o: u64 = cursor / width * 16;
        proof {
            lemma_slot_x_in_row(self.nbr_glyph as nat, self.img_width as nat);
        }
        let offset: i64 = if bitmap.min_x < 0 {
            -(bitmap.min_x as i64)
        } else {
            bitmap.min_x as i64
        };
        let ghost before = self@;
        let ghost x0 = x_o as int;
        let ghost y0 = y_o as int;
        let mut k: usize = 0;
        while k < bitmap.pixels.len()
            invariant
                k <= bitmap.pixels@.len(),
                self.img@.len() == self.img_width * self.img_height,
                width == self.img_width,
                height == self.img_height,
                0 <= x_o <= width - 8,
                0 <= y_o <= height - 16,
                x0 == x_o,
                y0 == y_o,
                offset == pixel_column(bitmap.min_x as int, GlyphPixel { x: 0, y: 0, ink: false }),
                self@ == (CacheView {
                    pixels: draw_glyph(
                        before.pixels,
                        before.width,
                        x0,
                        y0,
                        bitmap.min_x as int,
                        bitmap.min_y as int,
                        bitmap.pixels@,
                        k as nat,
                    ),
                    ..before
                }),
            decreases bitmap.pixels@.len() - k,
        {
            let p = bitmap.pixels[k];
            let column: i64 = p.x as i64 + offset;
            let row: i64 = 15 - (p.y as i64 + bitmap.min_y as i64);
            if 0 <= column && column < 8 && 0 <= row && row < 16 {
                proof {
                    lemma_pixel_in_bitmap(
                        x_o + column,
                        y_o + row,
                        width as int,
                        height as int,
                    );
                    assert(width * height == self.img@.len());
                    assert(self.img@.len() == self.img.len());
                }
                let index: usize = ((x_o + column as u64) + (y_o + row as u64) * width) as usize;
                let color = if p.ink {
                    RGBA8 { r: 255, g: 255, b: 255, a: 255 }
                } else {
                    RGBA8 { r: 0, g: 0, b: 0, a: 255 }
                };
                self.img.set(index, color);
            }
            k += 1;
        }
        let layout = UvLayout {
            min: (x_o as u32, y_o as u32),
            max: ((x_o + 8) as u32, (y_o + 16) as u32),
        };
        self.char_to_rect.insert(c as u32, layout);
        self.nbr_glyph = self.nbr_glyph + 1;
        self.is_dirty = true;
        proof {
            assert(self@.layouts =~= before.layouts.insert(c, layout)) by {
                assert forall|d: char| #[trigger]
                    self@.layouts.contains_key(d) == before.layouts.insert(
                        c,
                        layout,
                    ).contains_key(d) by {
                    lemma_code_points_differ(c, d);
                }
            }
            assert(self@ == after_request(before, c, bitmap@));
            lemma_request_keeps_order(before, c, bitmap@);
        }
        layout
    }

    /// The slot of the glyph of `c`. A code point that has none yet gets the
    /// next free slot, into which its glyph is rasterized and drawn; the
    /// bitmap is then due to be handed out. When no slot is left, the atlas
    /// stays as it is and the request fails.
    pub fn get_uv_layout<F: FontBackend>(&mut self, font: &F, c: char) -> (res: Result<
        UvLayout,
        GlyphCacheError,
    >)
        requires
            old(self).wf(),
        ensures
            final(self).wf(),
            res == answer(old(self)@, c),
            exists|glyph: GlyphBitmapView| final(self)@ == after_request(old(self)@, c, glyph),
    {
        let ghost before = self@;
        let known = self.char_to_rect.get(&(c as u32));
        match known {
            Some(layout) => {
                let layout = *layout;
                proof {
                    assert(self@ == after_request(before, c, no_glyph()));
                }
                Ok(layout)
            },
            None => {
                let rows: u64 = self.nbr_glyph as u64 * 8 / self.img_width as u64 * 16 + 16;
                if self.nbr_glyph == u32::MAX || rows > self.img_height as u64 {
                    proof {
                        assert(self@ == after_request(before, c, no_glyph()));
                    }
                    Err(GlyphCacheError::AtlasFull)
                } else {
                    let bitmap = font.rasterize(c);
                    let layout = self.gen_new_layout(c, &bitmap);
                    proof {
                        assert(self@ == after_request(before, c, bitmap@));
                    }
                    Ok(layout)
                }
            },
        }
    }
}

/// A code point that was given a slot keeps it: a second request returns the
/// same rectangle and leaves the atlas, its count of slots included, as the
/// first request left it, whatever the font would rasterize.
pub proof fn lemma_second_request_is_a_hit(
    s: CacheView,
    c: char,
    first: GlyphBitmapView,
    second: GlyphBitmapView,
)
    requires
        answer(s, c) is Ok,
    ensures
        ({
            let t = after_request(s, c, first);
            &&& answer(t, c) == answer(s, c)
            &&& after_request(t, c, second) == t
        }),
{
}


} // verus!
