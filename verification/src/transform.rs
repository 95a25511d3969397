//! Integer 3D placements.

use vstd::prelude::*;

verus! {

/// A placement given by its translation alone: x and y are destination-grid
/// offsets (column and row respectively) and z is a depth offset added to
/// every cell of a sprite composited under it.
#[derive(Clone, Copy, Debug, PartialEq, Eq, Structural)]
pub struct Transform {
    pub x: i64,
    pub y: i64,
    pub z: i64,
}

/// Whether the componentwise difference of two placements stays within the
/// machine integer range.
pub open spec fn relative_fits(p: Transform, f: Transform) -> bool {
    &&& i64::MIN <= p.x - f.x <= i64::MAX
    &&& i64::MIN <= p.y - f.y <= i64::MAX
    &&& i64::MIN <= p.z - f.z <= i64::MAX
}

/// The placement `p` expressed in the local coordinate system of the frame
/// placed at `f`: the composition of `p` with the inverse of `f`, which for
/// pure translations is the componentwise difference.
pub open spec fn relative(p: Transform, f: Transform) -> Transform {
    Transform { x: (p.x - f.x) as i64, y: (p.y - f.y) as i64, z: (p.z - f.z) as i64 }
}

impl Transform {
    pub fn new(x: i64, y: i64, z: i64) -> (t: Transform)
        ensures
            t == (Transform { x, y, z }),
    {
        Transform { x, y, z }
    }

    /// Expresses `self` relative to the viewing frame placed at `frame`.
    pub fn relative_to(&self, frame: &Transform) -> (t: Transform)
        requires
            relative_fits(*self, *frame),
        ensures
            t == relative(*self, *frame),
    {
        Transform { x: self.x - frame.x, y: self.y - frame.y, z: self.z - frame.z }
    }
}

impl Default for Transform {
    fn default() -> (t: Transform)
        ensures
            t == (Transform { x: 0, y: 0, z: 0 }),
    {
        Transform { x: 0, y: 0, z: 0 }
    }
}

} // verus!
