//! The box that a set of vertices lies in.

use crate::object::Vector;
use vstd::prelude::*;

verus! {

/// An axis-aligned box, given by its least and its greatest corner.
#[derive(Debug, Clone, Copy, PartialEq, Eq)]
pub struct Bounds {
    pub min: Vector,
    pub max: Vector,
}

impl Default for Bounds {
    /// The box that holds the origin alone.
    fn default() -> (r: Self)
        ensures
            r == (Bounds { min: Vector { x: 0, y: 0, z: 0 }, max: Vector { x: 0, y: 0, z: 0 } }),
    {
        Bounds { min: Vector { x: 0, y: 0, z: 0 }, max: Vector { x: 0, y: 0, z: 0 } }
    }
}

/// The lesser of two coordinates.
pub open spec fn least(a: i16, b: i16) -> i16 {
    if a <= b {
        a
    } else {
        b
    }
}

/// The greater of two coordinates.
pub open spec fn greatest(a: i16, b: i16) -> i16 {
    if a >= b {
        a
    } else {
        b
    }
}

impl Bounds {
    /// The point lies in the box, its faces included.
    pub open spec fn holds(self, v: Vector) -> bool {
        &&& self.min.x <= v.x <= self.max.x
        &&& self.min.y <= v.y <= self.max.y
        &&& self.min.z <= v.z <= self.max.z
    }

    /// The box grown, coordinate by coordinate, just far enough to hold `v`.
    pub open spec fn grown(self, v: Vector) -> Bounds {
        Bounds {
            min: Vector {
                x: least(self.min.x, v.x),
                y: least(self.min.y, v.y),
                z: least(self.min.z, v.z),
            },
            max: Vector {
                x: greatest(self.max.x, v.x),
                y: greatest(self.max.y, v.y),
                z: greatest(self.max.z, v.z),
            },
        }
    }

    /// Grows the box so that it holds `v`.
    pub fn look(&mut self, v: &Vector)
        ensures
            *final(self) == old(self).grown(*v),
    {
        if v.x < self.min.x {
            self.min.x = v.x;
        }
        if v.y < self.min.y {
            self.min.y = v.y;
        }
        if v.z < self.min.z {
            self.min.z = v.z;
        }
        if v.x > self.max.x {
            self.max.x = v.x;
        }
        if v.y > self.max.y {
            self.max.y = v.y;
        }
        if v.z > self.max.z {
            self.max.z = v.z;
        }
    }

    /// A box that has grown for `v` holds `v`, and every point that it held
    /// before.
    pub proof fn lemma_grown_holds(self, v: Vector, w: Vector)
        requires
            self.min.x <= self.max.x,
            self.min.y <= self.max.y,
            self.min.z <= self.max.z,
        ensures
            self.grown(v).holds(v),
            self.holds(w) ==> self.grown(v).holds(w),
    {
    }
}

} // verus!
