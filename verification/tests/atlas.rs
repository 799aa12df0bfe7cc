use console_grid::render::cache_glyph::{
    CacheGlyph, FontBackend, GlyphBitmap, GlyphCacheError, GlyphPixel,
};
use console_grid::util::rgba8::RGBA8;
use console_grid::util::uv_layout::UvLayout;
use std::cell::Cell;

const INK: RGBA8 = RGBA8 { r: 255, g: 255, b: 255, a: 255 };
const BLANK: RGBA8 = RGBA8 { r: 0, g: 0, b: 0, a: 255 };

struct Counting {
    calls: Cell<u32>,
    bitmap: GlyphBitmap,
}

impl Counting {
    fn new(bitmap: GlyphBitmap) -> Counting {
        Counting { calls: Cell::new(0), bitmap }
    }
}

impl FontBackend for Counting {
    fn rasterize(&self, _c: char) -> GlyphBitmap {
        self.calls.set(self.calls.get() + 1);
        self.bitmap.clone()
    }
}

fn dot(x: u32, y: u32) -> GlyphBitmap {
    GlyphBitmap { min_x: 0, min_y: 0, pixels: vec![GlyphPixel { x, y, ink: true }] }
}

#[test]
fn new_atlas_is_blank_and_due_for_upload() {
    let mut cache = CacheGlyph::with_size(16, 32);
    assert_eq!(cache.width(), 16);
    assert_eq!(cache.height(), 32);
    assert_eq!(cache.glyph_count(), 0);
    assert_eq!(cache.pixels().len(), 16 * 32);
    assert!(cache.pixels().iter().all(|p| *p == BLANK));
    assert!(cache.update_texture());
    assert!(!cache.update_texture());
}

#[test]
fn default_atlas_is_1024_pixels_square() {
    let cache = CacheGlyph::new();
    assert_eq!((cache.width(), cache.height()), (1024, 1024));
    assert_eq!(cache.pixels().len(), 1024 * 1024);
}

#[test]
fn second_request_returns_the_same_slot_and_takes_none() {
    let font = Counting::new(dot(0, 0));
    let mut cache = CacheGlyph::with_size(1024, 1024);
    for c in ['a', ' ', '\u{4e2d}', '\u{1f600}'] {
        let first = cache.get_uv_layout(&font, c).unwrap();
        let count = cache.glyph_count();
        let calls = font.calls.get();
        let pixels = cache.pixels().clone();
        assert!(cache.update_texture());
        let second = cache.get_uv_layout(&font, c).unwrap();
        assert_eq!(second, first);
        assert_eq!(cache.glyph_count(), count);
        assert_eq!(font.calls.get(), calls);
        assert_eq!(cache.pixels(), &pixels);
        assert!(!cache.update_texture());
        assert_eq!(cache.peek_uv_layout(c), Some(first));
    }
    assert_eq!(cache.glyph_count(), 4);
}

#[test]
fn slots_are_handed_out_in_raster_order() {
    let font = Counting::new(dot(0, 0));
    let mut cache = CacheGlyph::with_size(24, 48);
    let expected = [(0, 0), (8, 0), (16, 0), (0, 16), (8, 16), (16, 16), (0, 32)];
    for (n, (x, y)) in expected.iter().enumerate() {
        let c = char::from_u32('a' as u32 + n as u32).unwrap();
        let uv = cache.get_uv_layout(&font, c).unwrap();
        assert_eq!(uv, UvLayout { min: (*x, *y), max: (*x + 8, *y + 16) });
    }
}

#[test]
fn glyph_without_ink_takes_a_slot() {
    let font = Counting::new(GlyphBitmap { min_x: 0, min_y: 0, pixels: Vec::new() });
    let mut cache = CacheGlyph::with_size(16, 16);
    assert_eq!(cache.get_uv_layout(&font, ' '), Ok(UvLayout { min: (0, 0), max: (8, 16) }));
    assert_eq!(cache.glyph_count(), 1);
    assert!(cache.pixels().iter().all(|p| *p == BLANK));
}

#[test]
fn full_atlas_refuses_and_stays_as_it_is() {
    let font = Counting::new(dot(3, 3));
    let mut cache = CacheGlyph::with_size(16, 16);
    assert!(cache.get_uv_layout(&font, 'a').is_ok());
    assert!(cache.get_uv_layout(&font, 'b').is_ok());
    let pixels = cache.pixels().clone();
    assert!(cache.update_texture());
    assert_eq!(cache.get_uv_layout(&font, 'c'), Err(GlyphCacheError::AtlasFull));
    assert_eq!(cache.glyph_count(), 2);
    assert_eq!(cache.pixels(), &pixels);
    assert_eq!(font.calls.get(), 2);
    assert!(!cache.update_texture());
    assert_eq!(cache.peek_uv_layout('c'), None);
    assert_eq!(cache.get_uv_layout(&font, 'a'), Ok(UvLayout { min: (0, 0), max: (8, 16) }));
}

#[test]
fn atlas_too_low_for_a_slot_is_full_from_the_start() {
    let font = Counting::new(dot(0, 0));
    let mut cache = CacheGlyph::with_size(8, 15);
    assert_eq!(cache.get_uv_layout(&font, 'a'), Err(GlyphCacheError::AtlasFull));
}

#[test]
fn pixels_are_drawn_upside_down_into_the_slot() {
    let bitmap = GlyphBitmap {
        min_x: -1,
        min_y: 2,
        pixels: vec![
            GlyphPixel { x: 0, y: 0, ink: true },
            GlyphPixel { x: 2, y: 5, ink: true },
            GlyphPixel { x: 3, y: 5, ink: false },
        ],
    };
    let font = Counting::new(bitmap);
    let mut cache = CacheGlyph::with_size(16, 32);
    cache.get_uv_layout(&font, 'x').unwrap();
    cache.get_uv_layout(&font, 'y').unwrap();
    let at = |x: usize, y: usize| cache.pixels()[x + y * 16];
    assert_eq!(at(1, 13), INK);
    assert_eq!(at(3, 8), INK);
    assert_eq!(at(4, 8), BLANK);
    assert_eq!(at(8 + 1, 13), INK);
    assert_eq!(at(8 + 3, 8), INK);
    assert_eq!(cache.pixels().iter().filter(|p| **p == INK).count(), 4);
}

#[test]
fn pixels_outside_the_slot_are_dropped() {
    let bitmap = GlyphBitmap {
        min_x: 0,
        min_y: 0,
        pixels: vec![
            GlyphPixel { x: 8, y: 0, ink: true },
            GlyphPixel { x: 0, y: 16, ink: true },
            GlyphPixel { x: u32::MAX, y: u32::MAX, ink: true },
            GlyphPixel { x: 7, y: 15, ink: true },
        ],
    };
    let font = Counting::new(bitmap);
    let mut cache = CacheGlyph::with_size(16, 32);
    cache.get_uv_layout(&font, 'x').unwrap();
    let inked: Vec<usize> =
        (0..16 * 32).filter(|i| cache.pixels()[*i] == INK).collect();
    assert_eq!(inked, vec![7]);
}

#[test]
fn later_pixels_overwrite_earlier_ones() {
    let bitmap = GlyphBitmap {
        min_x: 0,
        min_y: 0,
        pixels: vec![GlyphPixel { x: 0, y: 15, ink: true }, GlyphPixel { x: 0, y: 15, ink: false }],
    };
    let font = Counting::new(bitmap);
    let mut cache = CacheGlyph::with_size(8, 16);
    cache.get_uv_layout(&font, 'x').unwrap();
    assert!(cache.pixels().iter().all(|p| *p == BLANK));
}
