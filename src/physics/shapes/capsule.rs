//! Capsules: not yet part of `Shape`, so no collision test covers them.
use vstd::prelude::*;
use crate::math::Vec3;

verus! {

/// A segment from `bottom` to `top` swept by a sphere of `radius`.
pub struct Capsule {
    top: Vec3,
    bottom: Vec3,
    radius: i64,
}

impl Capsule {
    pub closed spec fn spec_top(&self) -> Vec3 {
        self.top
    }

    pub closed spec fn spec_bottom(&self) -> Vec3 {
        self.bottom
    }

    pub closed spec fn spec_radius(&self) -> i64 {
        self.radius
    }

    pub fn new(top: Vec3, bottom: Vec3, radius: i64) -> (r: Capsule)
        ensures
            r.spec_top() == top,
            r.spec_bottom() == bottom,
            r.spec_radius() == radius,
    {
        Capsule { top, bottom, radius }
    }
}

} // verus!
