//! A character-cell display: a grid of styled cells, a glyph atlas that packs
//! rasterized glyphs into a fixed-size bitmap, a markup-aware text layout, and
//! a small retained tree of interface elements drawn onto the grid.

pub mod application;
pub mod util;
pub mod interface;
pub mod render;
