//! Spheres.
use vstd::prelude::*;
use crate::math::{Vec3, COORD_LIMIT};

verus! {

/// A sphere given by its center and radius.
#[derive(Clone, Copy, Debug, PartialEq, Eq, Structural)]
pub struct Sphere {
    pub center: Vec3,
    pub radius: i64,
}

impl Sphere {
    /// The center is in bounds and the radius lies in `[0, COORD_LIMIT]`.
    pub open spec fn wf(self) -> bool {
        self.center.in_bounds() && 0 <= self.radius <= COORD_LIMIT
    }

    pub fn new(center: Vec3, radius: i64) -> (r: Sphere)
        ensures
            r.center == center && r.radius == radius,
    {
        Sphere { center, radius }
    }
}

} // verus!
