//! Collision shapes: axis-aligned boxes and spheres.
use vstd::prelude::*;
use crate::math::{in_range, Vec3, COORD_LIMIT};

pub mod aabb;
pub mod capsule;
pub mod sphere;

pub use aabb::AABB;
pub use sphere::Sphere;

verus! {

/// A collision shape.
#[derive(Clone, Copy, Debug, PartialEq, Eq, Structural)]
pub enum Shape {
    AABB(AABB),
    Sphere(Sphere),
}

/// `v` moved by `(dx, dy, dz)`; meaningful when the result is in bounds.
pub open spec fn shift_point(v: Vec3, dx: int, dy: int, dz: int) -> Vec3 {
    Vec3 { x: (v.x + dx) as i64, y: (v.y + dy) as i64, z: (v.z + dz) as i64 }
}

/// Moving `v` by `(dx, dy, dz)` keeps it in bounds.
pub open spec fn can_shift_point(v: Vec3, dx: int, dy: int, dz: int) -> bool {
    in_range(v.x + dx) && in_range(v.y + dy) && in_range(v.z + dz)
}

impl Shape {
    pub open spec fn wf(self) -> bool {
        match self {
            Shape::AABB(b) => b.wf(),
            Shape::Sphere(s) => s.wf(),
        }
    }

    /// Whether the shape stays in bounds when moved by `(dx, dy, dz)`.
    pub open spec fn can_shift(self, dx: int, dy: int, dz: int) -> bool {
        match self {
            Shape::AABB(b) => can_shift_point(b.min, dx, dy, dz) && can_shift_point(
                b.max,
                dx,
                dy,
                dz,
            ),
            Shape::Sphere(s) => can_shift_point(s.center, dx, dy, dz),
        }
    }

    /// The shape moved by `(dx, dy, dz)`: every corner or center moves, a radius does not.
    pub open spec fn shifted(self, dx: int, dy: int, dz: int) -> Shape {
        match self {
            Shape::AABB(b) => Shape::AABB(
                AABB { min: shift_point(b.min, dx, dy, dz), max: shift_point(b.max, dx, dy, dz) },
            ),
            Shape::Sphere(s) => Shape::Sphere(
                Sphere { center: shift_point(s.center, dx, dy, dz), radius: s.radius },
            ),
        }
    }

    /// Moves the shape by `translation`, which must keep it in bounds.
    pub fn translate(&mut self, translation: Vec3)
        requires
            old(self).wf(),
            old(self).can_shift(translation.x as int, translation.y as int, translation.z as int),
        ensures
            *final(self) == old(self).shifted(
                translation.x as int,
                translation.y as int,
                translation.z as int,
            ),
            final(self).wf(),
    {
        let ok = self.try_shift(translation.x as i128, translation.y as i128, translation.z as i128);
        assert(ok);
    }

    /// Moves the shape by `(dx, dy, dz)` when the result stays in bounds and
    /// returns true; otherwise leaves it as it is and returns false.
    pub fn try_shift(&mut self, dx: i128, dy: i128, dz: i128) -> (ok: bool)
        requires
            old(self).wf(),
        ensures
            ok == old(self).can_shift(dx as int, dy as int, dz as int),
            ok ==> *final(self) == old(self).shifted(dx as int, dy as int, dz as int),
            !ok ==> *final(self) == *old(self),
            final(self).wf(),
    {
        match self {
            Shape::AABB(b) => {
                match (shift_vec(b.min, dx, dy, dz), shift_vec(b.max, dx, dy, dz)) {
                    (Some(lo), Some(hi)) => {
                        b.min = lo;
                        b.max = hi;
                        true
                    },
                    _ => false,
                }
            },
            Shape::Sphere(s) => {
                match shift_vec(s.center, dx, dy, dz) {
                    Some(c) => {
                        s.center = c;
                        true
                    },
                    None => false,
                }
            },
        }
    }
}

/// One coordinate moved by `d`, if the result is an admissible coordinate.
fn shift_coord(c: i64, d: i128) -> (r: Option<i64>)
    ensures
        r.is_some() == in_range(c + d),
        r.is_some() ==> r.unwrap() == c + d,
{
    if -(COORD_LIMIT as i128) - (c as i128) <= d && d <= (COORD_LIMIT as i128) - (c as i128) {
        Some((c as i128 + d) as i64)
    } else {
        None
    }
}

/// A point moved by `(dx, dy, dz)`, if the result is in bounds.
fn shift_vec(v: Vec3, dx: i128, dy: i128, dz: i128) -> (r: Option<Vec3>)
    ensures
        r.is_some() == can_shift_point(v, dx as int, dy as int, dz as int),
        r.is_some() ==> r.unwrap() == shift_point(v, dx as int, dy as int, dz as int),
{
    match (shift_coord(v.x, dx), shift_coord(v.y, dy), shift_coord(v.z, dz)) {
        (Some(x), Some(y), Some(z)) => Some(Vec3 { x, y, z }),
        _ => None,
    }
}

} // verus!
