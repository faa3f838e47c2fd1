//! Three-dimensional extents of compute grids and threadgroups.

use vstd::prelude::*;

verus! {

/// The extent of a grid or of a threadgroup, in threads along each axis.
#[derive(Clone, Copy, Debug, PartialEq, Eq, Structural)]
pub struct MTLSize {
    pub width: usize,
    pub height: usize,
    pub depth: usize,
}

impl MTLSize {
    /// The number of threads in the extent.
    pub open spec fn volume(self) -> int {
        self.depth * self.height * self.width
    }

    /// Whether `(x, y, z)` is the position of a thread in the extent.
    pub open spec fn contains(self, x: int, y: int, z: int) -> bool {
        &&& 0 <= x < self.width
        &&& 0 <= y < self.height
        &&& 0 <= z < self.depth
    }

    /// The offset of position `(x, y, z)` in a contiguous tensor of shape
    /// `[depth, height, width]`.
    pub open spec fn offset(self, x: int, y: int, z: int) -> int {
        (z * self.height + y) * self.width + x
    }

    /// Whether some thread of the extent has offset `n`.
    pub open spec fn reaches(self, n: int) -> bool {
        exists|x: int, y: int, z: int|
            self.contains(x, y, z) && #[trigger] self.offset(x, y, z) == n
    }
}

} // verus!
