use vstd::prelude::*;

verus! {

/// The coordinate plane that an axis-aligned rectangle lies in.
#[derive(Clone, Copy, Debug, PartialEq, Eq, Structural)]
pub enum Plane {
    YZ,
    XZ,
    XY,
}

/// The axes of a plane as `(normal axis, first in-plane axis, second in-plane axis)`,
/// with 0, 1, 2 standing for x, y, z.
pub open spec fn plane_axes(p: Plane) -> (usize, usize, usize) {
    match p {
        Plane::YZ => (0, 1, 2),
        Plane::XZ => (1, 0, 2),
        Plane::XY => (2, 0, 1),
    }
}

impl Plane {
    /// The normal axis and the two in-plane axes, in increasing order.
    pub fn axes(&self) -> (r: (usize, usize, usize))
        ensures
            r == plane_axes(*self),
            r.0 < 3 && r.1 < 3 && r.2 < 3,
            r.0 != r.1 && r.0 != r.2 && r.1 < r.2,
    {
        match self {
            Plane::YZ => (0, 1, 2),
            Plane::XZ => (1, 0, 2),
            Plane::XY => (2, 0, 1),
        }
    }
}

} // verus!
