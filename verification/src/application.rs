use crate::util::vector::Vector2;
use vstd::prelude::*;

verus! {

/// What the interface reads of the application on each frame.
#[derive(Copy, Clone, Debug, PartialEq, Eq, Structural)]
pub struct Application {
    /// The cell under the pointer.
    pub grid_position: Vector2,
    /// The state of the left button: 1 on the frame in which it goes down.
    pub mouse_left: i32,
    /// The time that the last frame took, in milliseconds.
    pub delta_time: u128,
}

} // verus!
