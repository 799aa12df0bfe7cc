use vstd::prelude::*;

verus! {

/// A rectangle in the atlas, in pixels: `min` is its corner nearest the
/// atlas origin, `max` the opposite corner, one past the last pixel.
#[derive(Copy, Clone, Debug, PartialEq, Eq)]
pub struct UvLayout {
    pub min: (u32, u32),
    pub max: (u32, u32),
}

} // verus!
