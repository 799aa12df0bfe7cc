use console_grid::interface::box_drawing::BoxDrawing;
use console_grid::render::cache_glyph::{
    CacheGlyph, FontBackend, GlyphBitmap, GlyphCacheError, GlyphPixel,
};
use console_grid::render::grid::{quad_of_bits, CellOp, Grid};
use console_grid::render::quad::Quad;
use console_grid::util::rgba8::RGBA8;
use console_grid::util::uv_layout::UvLayout;
use console_grid::util::vector::Vector2;

const WHITE: RGBA8 = RGBA8 { r: 255, g: 255, b: 255, a: 255 };
const BLACK: RGBA8 = RGBA8 { r: 0, g: 0, b: 0, a: 255 };
const RED: RGBA8 = RGBA8 { r: 255, g: 0, b: 0, a: 255 };
const BLUE: RGBA8 = RGBA8 { r: 0, g: 0, b: 255, a: 255 };

struct NoInk;

impl FontBackend for NoInk {
    fn rasterize(&self, _c: char) -> GlyphBitmap {
        GlyphBitmap { min_x: 0, min_y: 0, pixels: Vec::new() }
    }
}

fn chars(grid: &Grid, y: i32) -> String {
    (0..grid.width() as i32).map(|x| grid.get(x, y).unwrap().char).collect()
}

fn snapshot(grid: &Grid) -> Vec<Quad> {
    let mut cells = Vec::new();
    for y in 0..grid.height() as i32 {
        for x in 0..grid.width() as i32 {
            cells.push(grid.get(x, y).unwrap());
        }
    }
    cells
}

fn small() -> Grid {
    Grid::with_cache(8, 6, CacheGlyph::with_size(16, 32))
}

#[test]
fn new_grid_is_cleared() {
    let grid = small();
    assert_eq!(grid.width(), 8);
    assert_eq!(grid.height(), 6);
    let blank = Quad { char: ' ', fg_color: WHITE, bg_color: BLACK };
    assert!(snapshot(&grid).iter().all(|q| *q == blank));
    assert_eq!(Quad::blank(), blank);
    assert_eq!(grid.get(8, 0), None);
    assert_eq!(grid.get(0, 6), None);
    assert_eq!(grid.get(-1, 0), None);
    assert_eq!(grid.get(0, -1), None);
}

#[test]
fn write_at_is_read_back_cell_by_cell() {
    let mut grid = small();
    grid.write_at(2, 3, "abc");
    assert_eq!(grid.get(2, 3).unwrap().char, 'a');
    assert_eq!(grid.get(3, 3).unwrap().char, 'b');
    assert_eq!(grid.get(4, 3).unwrap().char, 'c');
    assert_eq!(chars(&grid, 3), "  abc   ");
    assert_eq!(chars(&grid, 2), "        ");
    assert_eq!(chars(&grid, 4), "        ");
    assert_eq!(grid.get(2, 3).unwrap().fg_color, WHITE);
}

#[test]
fn write_at_every_cell_of_the_grid() {
    for y in 0..6 {
        for x in 0..8 {
            let mut grid = small();
            grid.write_at(x, y, "#");
            assert_eq!(grid.get(x, y).unwrap().char, '#');
            assert_eq!(snapshot(&grid).iter().filter(|q| q.char == '#').count(), 1);
        }
    }
}

#[test]
fn write_at_outside_the_grid_changes_nothing() {
    let fresh = snapshot(&small());
    for (x, y) in [(0, -1), (0, 6), (8, 0), (-3, 2), (100, 100), (i32::MIN, 0), (0, i32::MAX)] {
        let mut grid = small();
        grid.write_at(x, y, "abc");
        assert_eq!(snapshot(&grid), fresh);
    }
}

#[test]
fn write_at_is_cut_off_at_the_right_edge() {
    let mut grid = small();
    grid.write_at(6, 1, "abcdef");
    assert_eq!(chars(&grid, 1), "      ab");
    assert_eq!(chars(&grid, 2), "        ");
    assert_eq!(chars(&grid, 0), "        ");
}

#[test]
fn write_at_is_cut_off_at_the_left_edge() {
    let mut grid = small();
    grid.write_at(-2, 5, "abcdef");
    assert_eq!(chars(&grid, 5), "cdef    ");
    grid.write_text(-3, 0, "0123456789abcdef");
    assert_eq!(chars(&grid, 0), "3456789a");
}

#[test]
fn clear_resets_what_it_names() {
    let mut grid = small();
    grid.write_at(0, 0, "x");
    grid.set_fg_from_to(Vector2::new(0, 0), Vector2::new(8, 6), RED);
    grid.set_bg_from_to(Vector2::new(0, 0), Vector2::new(8, 6), BLUE);
    let mut g = small();
    g.write_at(0, 0, "x");
    g.set_fg_from_to(Vector2::new(0, 0), Vector2::new(1, 1), RED);
    g.set_bg_from_to(Vector2::new(0, 0), Vector2::new(1, 1), BLUE);
    g.clear_char();
    assert_eq!(g.get(0, 0).unwrap(), Quad { char: ' ', fg_color: RED, bg_color: BLUE });
    g.write_at(0, 0, "x");
    g.clear_fg_color();
    assert_eq!(g.get(0, 0).unwrap(), Quad { char: 'x', fg_color: WHITE, bg_color: BLUE });
    g.clear_bg_color();
    assert_eq!(g.get(0, 0).unwrap(), Quad { char: 'x', fg_color: WHITE, bg_color: BLACK });
    grid.clear();
    assert_eq!(snapshot(&grid), snapshot(&small()));
}

#[test]
fn rectangles_leave_out_their_upper_bounds_and_are_cut_off() {
    let mut grid = small();
    grid.set_fg_from_to(Vector2::new(6, 4), Vector2::new(20, 20), RED);
    grid.set_bg_from_to(Vector2::new(-5, -5), Vector2::new(2, 1), BLUE);
    grid.write_from_to(Vector2::new(3, 2), Vector2::new(5, 4), '*');
    let red: Vec<(i32, i32)> = (0..6)
        .flat_map(|y| (0..8).map(move |x| (x, y)))
        .filter(|(x, y)| grid.get(*x, *y).unwrap().fg_color == RED)
        .collect();
    assert_eq!(red, vec![(6, 4), (7, 4), (6, 5), (7, 5)]);
    let blue: Vec<(i32, i32)> = (0..6)
        .flat_map(|y| (0..8).map(move |x| (x, y)))
        .filter(|(x, y)| grid.get(*x, *y).unwrap().bg_color == BLUE)
        .collect();
    assert_eq!(blue, vec![(0, 0), (1, 0)]);
    assert_eq!(chars(&grid, 2), "   **   ");
    assert_eq!(chars(&grid, 3), "   **   ");
    assert_eq!(chars(&grid, 4), "        ");
    let before = snapshot(&grid);
    grid.set_fg_from_to(Vector2::new(5, 5), Vector2::new(2, 2), BLUE);
    assert_eq!(snapshot(&grid), before);
}

#[test]
fn inverse_twice_restores_the_cells() {
    let mut grid = small();
    grid.set_fg_from_to(Vector2::new(1, 1), Vector2::new(4, 3), RED);
    grid.set_bg_from_to(Vector2::new(2, 0), Vector2::new(7, 5), BLUE);
    let before = snapshot(&grid);
    grid.inverse_color_from_to(Vector2::new(0, 0), Vector2::new(5, 4));
    assert_eq!(grid.get(2, 1).unwrap().fg_color, BLUE);
    assert_eq!(grid.get(2, 1).unwrap().bg_color, RED);
    assert_eq!(grid.get(6, 4).unwrap().fg_color, WHITE);
    assert_ne!(snapshot(&grid), before);
    grid.inverse_color_from_to(Vector2::new(0, 0), Vector2::new(5, 4));
    assert_eq!(snapshot(&grid), before);
}

#[test]
fn single_cells_can_be_inverted_and_painted() {
    let mut grid = small();
    grid.inverse_color_at(3, 3);
    assert_eq!(grid.get(3, 3).unwrap(), Quad { char: ' ', fg_color: BLACK, bg_color: WHITE });
    grid.switch_bg_at(4, 3, RED);
    assert_eq!(grid.get(4, 3).unwrap().bg_color, RED);
    let before = snapshot(&grid);
    grid.inverse_color_at(8, 3);
    grid.switch_bg_at(-1, 0, RED);
    assert_eq!(snapshot(&grid), before);
    assert_eq!(before.iter().filter(|q| q.bg_color != BLACK).count(), 2);
}

#[test]
fn box_has_corners_and_edges() {
    let mut grid = small();
    grid.write_at(3, 3, "in");
    grid.write_box(Vector2::new(2, 2), Vector2::new(5, 5), BoxDrawing::Light);
    assert_eq!(chars(&grid, 5), "  \u{250c}\u{2500}\u{2500}\u{2510}  ");
    assert_eq!(chars(&grid, 4), "  \u{2502}  \u{2502}  ");
    assert_eq!(chars(&grid, 3), "  \u{2502}in\u{2502}  ");
    assert_eq!(chars(&grid, 2), "  \u{2514}\u{2500}\u{2500}\u{2518}  ");
    assert_eq!(chars(&grid, 1), "        ");
}

#[test]
fn box_is_the_same_for_either_order_of_its_corners() {
    let mut forward = small();
    forward.write_box(Vector2::new(2, 2), Vector2::new(5, 5), BoxDrawing::Double);
    let mut backward = small();
    backward.write_box(Vector2::new(5, 5), Vector2::new(2, 2), BoxDrawing::Double);
    let mut other = small();
    other.write_box(Vector2::new(2, 5), Vector2::new(5, 2), BoxDrawing::Double);
    assert_eq!(snapshot(&forward), snapshot(&backward));
    assert_eq!(snapshot(&forward), snapshot(&other));
    assert_eq!(forward.get(2, 2).unwrap().char, '\u{255a}');
    assert_eq!(forward.get(5, 5).unwrap().char, '\u{2557}');
}

#[test]
fn box_is_cut_off_at_the_edges_of_the_grid() {
    let mut grid = small();
    grid.write_box(Vector2::new(-1, -1), Vector2::new(3, 2), BoxDrawing::Heavy);
    assert_eq!(chars(&grid, 2), "\u{2501}\u{2501}\u{2501}\u{2513}    ");
    assert_eq!(chars(&grid, 1), "   \u{2503}    ");
    assert_eq!(chars(&grid, 0), "   \u{2503}    ");
}

#[test]
fn each_style_has_its_six_characters() {
    assert_eq!(
        BoxDrawing::get_char(BoxDrawing::Light),
        ('\u{2500}', '\u{2502}', '\u{2514}', '\u{250c}', '\u{2518}', '\u{2510}')
    );
    assert_eq!(
        BoxDrawing::get_char(BoxDrawing::Heavy),
        ('\u{2501}', '\u{2503}', '\u{2517}', '\u{250f}', '\u{251b}', '\u{2513}')
    );
    assert_eq!(BoxDrawing::get_char(BoxDrawing::DoubleDashLight).0, '\u{254c}');
    assert_eq!(BoxDrawing::get_char(BoxDrawing::DoubleDashHeavy).1, '\u{254f}');
    assert_eq!(BoxDrawing::get_char(BoxDrawing::TripleDashLight).0, '\u{2504}');
    assert_eq!(BoxDrawing::get_char(BoxDrawing::TripleDashHeavy).1, '\u{2507}');
    assert_eq!(BoxDrawing::get_char(BoxDrawing::QuadrupleDashLight).0, '\u{2508}');
    assert_eq!(BoxDrawing::get_char(BoxDrawing::QuadrupleDashHeavy).1, '\u{250b}');
    assert_eq!(
        BoxDrawing::get_char(BoxDrawing::Double),
        ('\u{2550}', '\u{2551}', '\u{255a}', '\u{2554}', '\u{255d}', '\u{2557}')
    );
    assert_eq!(
        BoxDrawing::get_char(BoxDrawing::Arc),
        ('\u{2500}', '\u{2502}', '\u{2570}', '\u{256d}', '\u{256f}', '\u{256e}')
    );
}

#[test]
fn paint_does_one_thing_to_each_cell_of_a_rectangle() {
    let mut grid = small();
    grid.paint(1, 1, 3, 2, CellOp::Char('z'));
    assert_eq!(chars(&grid, 1), " zz     ");
    grid.paint(i128::MIN, i128::MIN, i128::MAX, i128::MAX, CellOp::Fg(RED));
    assert!(snapshot(&grid).iter().all(|q| q.fg_color == RED));
    grid.paint(0, 0, 8, 6, CellOp::Clear);
    assert_eq!(snapshot(&grid), snapshot(&small()));
}

#[test]
fn shuffle_gives_ascii_on_opaque_colours() {
    let mut grid = small();
    grid.shuffle_glyph();
    for q in snapshot(&grid) {
        assert!((q.char as u32) < 128);
        assert_eq!(q.fg_color.a, 255);
        assert_eq!(q.bg_color.a, 255);
    }
    let q = quad_of_bits(0x1c1, 0x01020304, 0xffeeddcc);
    assert_eq!(q.char, 'A');
    assert_eq!(q.fg_color, RGBA8::new(4, 3, 2, 255));
    assert_eq!(q.bg_color, RGBA8::new(0xcc, 0xdd, 0xee, 255));
}

#[test]
fn draw_derives_colours_and_glyph_corners() {
    let mut grid = Grid::with_cache(2, 1, CacheGlyph::with_size(16, 32));
    assert_eq!(grid.texture_coordinate(), &vec![0u32; 16]);
    assert_eq!(grid.fg_color(), &vec![255u8; 32]);
    grid.write_at(0, 0, "ab");
    grid.set_fg_from_to(Vector2::new(1, 0), Vector2::new(2, 1), RGBA8::new(1, 2, 3, 4));
    grid.set_bg_from_to(Vector2::new(0, 0), Vector2::new(1, 1), RGBA8::new(5, 6, 7, 8));
    assert_eq!(grid.draw(&NoInk), Ok(()));
    assert_eq!(
        grid.texture_coordinate(),
        &vec![8, 16, 8, 0, 0, 0, 0, 16, 16, 16, 16, 0, 8, 0, 8, 16]
    );
    let mut fg = vec![255u8; 16];
    fg.extend([1, 2, 3, 4, 1, 2, 3, 4, 1, 2, 3, 4, 1, 2, 3, 4]);
    assert_eq!(grid.fg_color(), &fg);
    let mut bg = vec![5, 6, 7, 8, 5, 6, 7, 8, 5, 6, 7, 8, 5, 6, 7, 8];
    bg.extend([0, 0, 0, 255, 0, 0, 0, 255, 0, 0, 0, 255, 0, 0, 0, 255]);
    assert_eq!(grid.bg_color(), &bg);
    assert_eq!(grid.cache_glyph().glyph_count(), 2);
    grid.write_at(0, 0, "ba");
    assert_eq!(grid.draw(&NoInk), Ok(()));
    assert_eq!(grid.cache_glyph().glyph_count(), 2);
    assert_eq!(
        grid.texture_coordinate(),
        &vec![16, 16, 16, 0, 8, 0, 8, 16, 8, 16, 8, 0, 0, 0, 0, 16]
    );
}

#[test]
fn draw_reports_a_full_atlas_and_goes_on() {
    let mut grid = Grid::with_cache(3, 1, CacheGlyph::with_size(8, 32));
    grid.write_at(0, 0, "abc");
    assert_eq!(grid.draw(&NoInk), Err(GlyphCacheError::AtlasFull));
    assert_eq!(
        grid.texture_coordinate(),
        &vec![8, 16, 8, 0, 0, 0, 0, 16, 8, 32, 8, 16, 0, 16, 0, 32, 0, 0, 0, 0, 0, 0, 0, 0]
    );
    assert_eq!(grid.cache_glyph().peek_uv_layout('c'), None);
    assert_eq!(
        grid.cache_glyph().peek_uv_layout('b'),
        Some(UvLayout { min: (0, 16), max: (8, 32) })
    );
    assert!(grid.update_texture());
    assert!(!grid.update_texture());
}

#[test]
fn a_cell_switches_one_part_at_a_time() {
    let mut q = Quad::blank();
    q.switch_char('x');
    assert_eq!(q, Quad { char: 'x', fg_color: WHITE, bg_color: BLACK });
    q.switch_fg_color(RED);
    assert_eq!(q, Quad { char: 'x', fg_color: RED, bg_color: BLACK });
    q.switch_bg_color(BLUE);
    assert_eq!(q, Quad { char: 'x', fg_color: RED, bg_color: BLUE });
    assert_eq!(Quad::written(q, 'y'), Quad { char: 'y', fg_color: RED, bg_color: BLUE });
}

#[test]
fn glyph_pixel_is_plain_data() {
    let p = GlyphPixel { x: 1, y: 2, ink: true };
    assert_eq!(p, GlyphPixel { x: 1, y: 2, ink: true });
}
