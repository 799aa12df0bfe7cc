//! Plain value types shared by the renderer and the interface.

pub mod buffer;
pub mod rgba8;
pub mod text;
pub mod uv_layout;
pub mod vector;
