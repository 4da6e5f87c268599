//! Narrow-phase overlap tests between pairs of shapes.
use vstd::prelude::*;
use crate::math::{dist_sq, in_range, sq, Vec3};
use crate::physics::shapes::{Shape, Sphere, AABB};

verus! {

/// Two boxes collide when their open extents overlap on all three axes.
/// Boxes that only share a face (`a.max.x == b.min.x`) do not collide.
pub open spec fn aabb_aabb_collide(a: AABB, b: AABB) -> bool {
    &&& a.min.x < b.max.x && b.min.x < a.max.x
    &&& a.min.y < b.max.y && b.min.y < a.max.y
    &&& a.min.z < b.max.z && b.min.z < a.max.z
}

/// Two spheres collide when the distance between centers is at most the sum
/// of the radii; touching spheres collide.
pub open spec fn sphere_sphere_collide(a: Sphere, b: Sphere) -> bool {
    dist_sq(a.center, b.center) <= sq(a.radius + b.radius)
}

/// `v` clamped into `[lo, hi]`.
pub open spec fn clamp(v: int, lo: int, hi: int) -> int {
    if v < lo {
        lo
    } else if v > hi {
        hi
    } else {
        v
    }
}

/// The point of the box nearest to `p`.
pub open spec fn closest_point(b: AABB, p: Vec3) -> Vec3 {
    Vec3 {
        x: clamp(p.x as int, b.min.x as int, b.max.x as int) as i64,
        y: clamp(p.y as int, b.min.y as int, b.max.y as int) as i64,
        z: clamp(p.z as int, b.min.z as int, b.max.z as int) as i64,
    }
}

/// A box and a sphere collide when the point of the box nearest to the center
/// lies within the radius; touching counts as colliding.
pub open spec fn aabb_sphere_collide(b: AABB, s: Sphere) -> bool {
    dist_sq(closest_point(b, s.center), s.center) <= sq(s.radius as int)
}

/// Whether two shapes overlap, for every pair of shape kinds.
pub open spec fn collides(a: Shape, b: Shape) -> bool {
    match (a, b) {
        (Shape::AABB(x), Shape::AABB(y)) => aabb_aabb_collide(x, y),
        (Shape::Sphere(x), Shape::Sphere(y)) => sphere_sphere_collide(x, y),
        (Shape::AABB(x), Shape::Sphere(y)) => aabb_sphere_collide(x, y),
        (Shape::Sphere(y), Shape::AABB(x)) => aabb_sphere_collide(x, y),
    }
}

/// Square of a difference of two coordinates, exactly.
pub(crate) fn diff_sq(a: i64, b: i64) -> (r: i64)
    requires
        in_range(a as int),
        in_range(b as int),
    ensures
        r == sq(a - b),
        0 <= r <= 288230376151711744,
{
    let d: i64 = a - b;
    assert(d * d <= 288230376151711744) by (nonlinear_arith)
        requires
            -536870912 <= d <= 536870912,
    ;
    assert(0 <= d * d) by (nonlinear_arith);
    d * d
}

/// Squared distance between two in-bounds points.
pub fn distance_sq(a: Vec3, b: Vec3) -> (r: i64)
    requires
        a.in_bounds(),
        b.in_bounds(),
    ensures
        r == dist_sq(a, b),
        0 <= r <= 864691128455135232,
{
    diff_sq(a.x, b.x) + diff_sq(a.y, b.y) + diff_sq(a.z, b.z)
}

pub(crate) fn clamp_coord(v: i64, lo: i64, hi: i64) -> (r: i64)
    requires
        lo <= hi,
    ensures
        r == clamp(v as int, lo as int, hi as int),
{
    if v < lo {
        lo
    } else if v > hi {
        hi
    } else {
        v
    }
}

/// The point of a valid box nearest to `p`.
pub fn nearest_point(b: &AABB, p: Vec3) -> (r: Vec3)
    requires
        b.wf(),
    ensures
        r == closest_point(*b, p),
        r.in_bounds(),
{
    Vec3 {
        x: clamp_coord(p.x, b.min.x, b.max.x),
        y: clamp_coord(p.y, b.min.y, b.max.y),
        z: clamp_coord(p.z, b.min.z, b.max.z),
    }
}

fn test_aabb_aabb(obj: &AABB, other: &AABB) -> (r: bool)
    ensures
        r == aabb_aabb_collide(*obj, *other),
{
    !(obj.max.x <= other.min.x || obj.min.x >= other.max.x || obj.max.y <= other.min.y
        || obj.min.y >= other.max.y || obj.max.z <= other.min.z || obj.min.z >= other.max.z)
}

fn test_sphere_sphere(obj: &Sphere, other: &Sphere) -> (r: bool)
    requires
        obj.wf(),
        other.wf(),
    ensures
        r == sphere_sphere_collide(*obj, *other),
{
    let rsum: i64 = obj.radius + other.radius;
    assert(rsum * rsum <= 288230376151711744) by (nonlinear_arith)
        requires
            0 <= rsum <= 536870912,
    ;
    distance_sq(obj.center, other.center) <= rsum * rsum
}

fn test_aabb_sphere(obj: &AABB, other: &Sphere) -> (r: bool)
    requires
        obj.wf(),
        other.wf(),
    ensures
        r == aabb_sphere_collide(*obj, *other),
{
    let p = nearest_point(obj, other.center);
    assert(other.radius * other.radius <= 288230376151711744) by (nonlinear_arith)
        requires
            0 <= other.radius <= 536870912,
    ;
    distance_sq(p, other.center) <= other.radius * other.radius
}

/// Boxes collide exactly when their extents overlap on all three axes; boxes
/// separated on some axis, or sharing only a face there, do not collide.
pub proof fn lemma_aabb_test(a: AABB, b: AABB)
    ensures
        collides(Shape::AABB(a), Shape::AABB(b)) <==> (forall|i: int|
            0 <= i < 3 ==> a.min.axis(i) < b.max.axis(i) && b.min.axis(i) < a.max.axis(i)),
        (exists|i: int|
            0 <= i < 3 && (a.max.axis(i) <= b.min.axis(i) || b.max.axis(i) <= a.min.axis(i)))
            ==> !collides(Shape::AABB(a), Shape::AABB(b)),
        a.max.x == b.min.x ==> !collides(Shape::AABB(a), Shape::AABB(b)),
{
    if collides(Shape::AABB(a), Shape::AABB(b)) {
        assert forall|i: int| 0 <= i < 3 implies a.min.axis(i) < b.max.axis(i) && b.min.axis(i)
            < a.max.axis(i) by {
            if i == 0 {
            } else if i == 1 {
            } else {
            }
        }
    }
    if forall|i: int|
        0 <= i < 3 ==> a.min.axis(i) < b.max.axis(i) && b.min.axis(i) < a.max.axis(i) {
        assert(a.min.axis(0) < b.max.axis(0) && b.min.axis(0) < a.max.axis(0));
        assert(a.min.axis(1) < b.max.axis(1) && b.min.axis(1) < a.max.axis(1));
        assert(a.min.axis(2) < b.max.axis(2) && b.min.axis(2) < a.max.axis(2));
    }
}

/// Spheres whose centers are exactly `r1 + r2` apart collide.
pub proof fn lemma_touching_spheres_collide(a: Sphere, b: Sphere)
    requires
        dist_sq(a.center, b.center) == sq(a.radius + b.radius),
    ensures
        collides(Shape::Sphere(a), Shape::Sphere(b)),
{
}

/// Whether two valid shapes overlap.
pub fn test_collision(obj: &Shape, other: &Shape) -> (r: bool)
    requires
        obj.wf(),
        other.wf(),
    ensures
        r == collides(*obj, *other),
{
    match (obj, other) {
        (Shape::AABB(a), Shape::AABB(b)) => test_aabb_aabb(a, b),
        (Shape::Sphere(a), Shape::Sphere(b)) => test_sphere_sphere(a, b),
        (Shape::AABB(a), Shape::Sphere(b)) => test_aabb_sphere(a, b),
        (Shape::Sphere(b), Shape::AABB(a)) => test_aabb_sphere(a, b),
    }
}

} // verus!
