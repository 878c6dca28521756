//! Integer coordinates of the sandbox grid.

use vstd::prelude::*;

verus! {

/// A cell position: `x` grows to the right, `y` grows downwards.
#[derive(Copy, Clone, Debug, PartialEq, Eq, Structural)]
pub struct SandboxCoordinate {
    pub x: i32,
    pub y: i32,
}

impl SandboxCoordinate {
    pub fn new(x: i32, y: i32) -> (coord: Self)
        ensures
            coord.x == x,
            coord.y == y,
    {
        SandboxCoordinate { x, y }
    }

    /// The coordinate lies inside a sandbox of the given width and height.
    pub open spec fn within(self, width: int, height: int) -> bool {
        0 <= self.x < width && 0 <= self.y < height
    }
}

} // verus!
