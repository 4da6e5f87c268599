//! Axis-aligned boxes.
use vstd::prelude::*;
use crate::math::Vec3;

verus! {

/// An axis-aligned box given by its two extreme corners.
#[derive(Clone, Copy, Debug, PartialEq, Eq, Structural)]
pub struct AABB {
    pub min: Vec3,
    pub max: Vec3,
}

impl AABB {
    /// Both corners are in bounds and `min <= max` on every axis.
    pub open spec fn wf(self) -> bool {
        &&& self.min.in_bounds()
        &&& self.max.in_bounds()
        &&& self.min.x <= self.max.x
        &&& self.min.y <= self.max.y
        &&& self.min.z <= self.max.z
    }

    pub fn new(min: Vec3, max: Vec3) -> (r: AABB)
        ensures
            r.min == min && r.max == max,
    {
        AABB { min, max }
    }
}

} // verus!
