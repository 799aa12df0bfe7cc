//! The cell grid and the glyph atlas from which its cells are drawn.

pub mod cache_glyph;
pub mod grid;
pub mod quad;
