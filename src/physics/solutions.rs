//! Minimum translation vectors and the positional-correction policy.
use vstd::prelude::*;
use vstd::arithmetic::div_mod::{lemma_div_is_ordered, lemma_div_multiples_vanish, lemma_div_pos_is_pos};
use crate::physics::collision::{closest_point, collides, distance_sq, nearest_point};
use crate::math::{dist_sq, is_sqrt_floor, isqrt, sq, sqrt_floor, Vec3};
use crate::physics::physics_object::{ColliderType, PhysicsObject};
use crate::physics::shapes::{Shape, Sphere, AABB};

verus! {

/// Bound on every component of a translation vector produced by `get_mtv`.
pub const MTV_LIMIT: i64 = 536870912;

pub open spec fn mtv_bounded(v: Vec3) -> bool {
    &&& -MTV_LIMIT <= v.x <= MTV_LIMIT
    &&& -MTV_LIMIT <= v.y <= MTV_LIMIT
    &&& -MTV_LIMIT <= v.z <= MTV_LIMIT
}

pub open spec fn min2(a: int, b: int) -> int {
    if a <= b {
        a
    } else {
        b
    }
}

/// Penetration of box `a` into box `b` along axis `i`.
pub open spec fn overlap(a: AABB, b: AABB, i: int) -> int {
    min2(a.max.axis(i) - b.min.axis(i), b.max.axis(i) - a.min.axis(i))
}

/// `o` pointing `a` away from `b` along axis `i`: negative when `a` starts
/// before `b` on that axis.
pub open spec fn signed_overlap(a: AABB, b: AABB, i: int) -> int {
    if a.min.axis(i) < b.min.axis(i) {
        -overlap(a, b, i)
    } else {
        overlap(a, b, i)
    }
}

/// The box-box translation: zero unless all three overlaps are positive;
/// otherwise along the axis of least overlap (x, then y, then z on ties).
pub open spec fn aabb_aabb_mtv(a: AABB, b: AABB) -> Vec3 {
    let ox = overlap(a, b, 0);
    let oy = overlap(a, b, 1);
    let oz = overlap(a, b, 2);
    if ox <= 0 || oy <= 0 || oz <= 0 {
        Vec3 { x: 0, y: 0, z: 0 }
    } else if ox <= oy && ox <= oz {
        Vec3 { x: signed_overlap(a, b, 0) as i64, y: 0, z: 0 }
    } else if oy <= oz {
        Vec3 { x: 0, y: signed_overlap(a, b, 1) as i64, z: 0 }
    } else {
        Vec3 { x: 0, y: 0, z: signed_overlap(a, b, 2) as i64 }
    }
}

/// `c * p / q` rounded toward zero.
pub open spec fn scale(c: int, p: int, q: int) -> int {
    if c >= 0 {
        c * p / q
    } else {
        -((-c) * p / q)
    }
}

/// The direction `d` (whose length rounds down to `dist`) resized to `pen`.
/// With `pen <= 0` there is nothing to correct; with `dist == 0` the direction
/// is unknown and `+x` is taken.
pub open spec fn push_along(d: Vec3, dist: int, pen: int) -> Vec3 {
    if pen <= 0 {
        Vec3 { x: 0, y: 0, z: 0 }
    } else if dist == 0 {
        Vec3 { x: pen as i64, y: 0, z: 0 }
    } else {
        Vec3 {
            x: scale(d.x as int, pen, dist) as i64,
            y: scale(d.y as int, pen, dist) as i64,
            z: scale(d.z as int, pen, dist) as i64,
        }
    }
}

pub open spec fn diff(a: Vec3, b: Vec3) -> Vec3 {
    Vec3 { x: (a.x - b.x) as i64, y: (a.y - b.y) as i64, z: (a.z - b.z) as i64 }
}

/// Sphere-sphere translation: from `b`'s center toward `a`'s, with length
/// `(r_a + r_b) - distance`, the distance rounded down.
pub open spec fn sphere_sphere_mtv(a: Sphere, b: Sphere) -> Vec3 {
    let dist = sqrt_floor(dist_sq(a.center, b.center));
    push_along(diff(a.center, b.center), dist, a.radius + b.radius - dist)
}

/// Box-sphere translation for the sphere: from the point of the box nearest to
/// the center toward the center, with length `radius - distance`.
pub open spec fn aabb_sphere_mtv(b: AABB, s: Sphere) -> Vec3 {
    let p = closest_point(b, s.center);
    let dist = sqrt_floor(dist_sq(s.center, p));
    push_along(diff(s.center, p), dist, s.radius - dist)
}

pub open spec fn neg(v: Vec3) -> Vec3 {
    Vec3 { x: (-v.x) as i64, y: (-v.y) as i64, z: (-v.z) as i64 }
}

/// The translation that moves `a` out of `b`, for every pair of shape kinds.
pub open spec fn mtv(a: Shape, b: Shape) -> Vec3 {
    match (a, b) {
        (Shape::AABB(x), Shape::AABB(y)) => aabb_aabb_mtv(x, y),
        (Shape::Sphere(x), Shape::Sphere(y)) => sphere_sphere_mtv(x, y),
        (Shape::AABB(x), Shape::Sphere(y)) => neg(aabb_sphere_mtv(x, y)),
        (Shape::Sphere(y), Shape::AABB(x)) => aabb_sphere_mtv(x, y),
    }
}

/// `m / 2` rounded toward zero.
pub open spec fn half(m: int) -> int {
    if m >= 0 {
        m / 2
    } else {
        -((-m) / 2)
    }
}

pub open spec fn with_shape(o: PhysicsObject, s: Shape) -> PhysicsObject {
    PhysicsObject { shape: s, collider_type: o.collider_type }
}

/// The pair after correction by `m`:
/// Dynamic/Dynamic: `a` moves by `m/2` (toward zero), `b` by the rest of `-m`;
/// Dynamic/Static: `a` moves by `m`; Static/Dynamic: `b` moves by `-m`;
/// Static/Static: nothing moves.
/// A correction that would carry a shape out of bounds is not applied at all.
pub open spec fn resolved(a: PhysicsObject, b: PhysicsObject, m: Vec3) -> (
    PhysicsObject,
    PhysicsObject,
) {
    match (a.collider_type, b.collider_type) {
        (ColliderType::Dynamic, ColliderType::Dynamic) => {
            let (hx, hy, hz) = (half(m.x as int), half(m.y as int), half(m.z as int));
            let (rx, ry, rz) = (hx - m.x, hy - m.y, hz - m.z);
            if a.shape.can_shift(hx, hy, hz) && b.shape.can_shift(rx, ry, rz) {
                (
                    with_shape(a, a.shape.shifted(hx, hy, hz)),
                    with_shape(b, b.shape.shifted(rx, ry, rz)),
                )
            } else {
                (a, b)
            }
        },
        (ColliderType::Dynamic, ColliderType::Static) => {
            if a.shape.can_shift(m.x as int, m.y as int, m.z as int) {
                (with_shape(a, a.shape.shifted(m.x as int, m.y as int, m.z as int)), b)
            } else {
                (a, b)
            }
        },
        (ColliderType::Static, ColliderType::Dynamic) => {
            if b.shape.can_shift(-m.x, -m.y, -m.z) {
                (a, with_shape(b, b.shape.shifted(-m.x, -m.y, -m.z)))
            } else {
                (a, b)
            }
        },
        (ColliderType::Static, ColliderType::Static) => (a, b),
    }
}

fn min_i64(a: i64, b: i64) -> (r: i64)
    ensures
        r == min2(a as int, b as int),
{
    if a <= b {
        a
    } else {
        b
    }
}

fn get_mtv_aabb_aabb(obj: &AABB, other: &AABB) -> (r: Vec3)
    requires
        obj.wf(),
        other.wf(),
    ensures
        r == aabb_aabb_mtv(*obj, *other),
        mtv_bounded(r),
{
    let ox = min_i64(obj.max.x - other.min.x, other.max.x - obj.min.x);
    let oy = min_i64(obj.max.y - other.min.y, other.max.y - obj.min.y);
    let oz = min_i64(obj.max.z - other.min.z, other.max.z - obj.min.z);
    if ox <= 0 || oy <= 0 || oz <= 0 {
        Vec3 { x: 0, y: 0, z: 0 }
    } else if ox <= oy && ox <= oz {
        let x = if obj.min.x < other.min.x {
            -ox
        } else {
            ox
        };
        Vec3 { x, y: 0, z: 0 }
    } else if oy <= oz {
        let y = if obj.min.y < other.min.y {
            -oy
        } else {
            oy
        };
        Vec3 { x: 0, y, z: 0 }
    } else {
        let z = if obj.min.z < other.min.z {
            -oz
        } else {
            oz
        };
        Vec3 { x: 0, y: 0, z }
    }
}

/// A component of a vector is no longer than the vector's rounded-down length.
proof fn lemma_component_le_root(c: int, n: int, r: int)
    requires
        sq(c) <= n,
        is_sqrt_floor(n, r),
    ensures
        -r <= c <= r,
{
    if c > r {
        assert((r + 1) * (r + 1) <= c * c) by (nonlinear_arith)
            requires
                0 <= r < c,
        ;
    } else if c < -r {
        assert((r + 1) * (r + 1) <= c * c) by (nonlinear_arith)
            requires
                0 <= r,
                c < -r,
        ;
    }
}

/// `c * p / q` rounded toward zero, for `|c| <= q`; its magnitude is at most `p`.
fn scale_component(c: i64, p: i64, q: i64) -> (r: i64)
    requires
        -q <= c <= q,
        0 <= p <= MTV_LIMIT,
        0 < q < 2147483648,
    ensures
        r == scale(c as int, p as int, q as int),
        -p <= r <= p,
{
    let m: i64 = if c >= 0 {
        c
    } else {
        -c
    };
    assert(m * p <= q * p) by (nonlinear_arith)
        requires
            0 <= m <= q,
            0 <= p,
    ;
    assert(q * p <= 2147483648 * 536870912) by (nonlinear_arith)
        requires
            0 < q <= 2147483648,
            0 <= p <= 536870912,
    ;
    assert(0 <= m * p) by (nonlinear_arith)
        requires
            0 <= m,
            0 <= p,
    ;
    let v: i64 = m * p / q;
    proof {
        lemma_div_is_ordered(m * p, q * p, q as int);
        lemma_div_multiples_vanish(p as int, q as int);
        lemma_div_pos_is_pos(m * p, q as int);
    }
    if c >= 0 {
        v
    } else {
        -v
    }
}

/// `d` resized to `pen`, as `push_along` states, for a `d` whose squared length
/// is `n` with rounded-down root `dist`.
fn push_along_exec(d: Vec3, n: i64, dist: i64, pen: i64) -> (r: Vec3)
    requires
        n == sq(d.x as int) + sq(d.y as int) + sq(d.z as int),
        is_sqrt_floor(n as int, dist as int),
        0 <= dist < 2147483648,
        pen <= MTV_LIMIT,
    ensures
        r == push_along(d, dist as int, pen as int),
        mtv_bounded(r),
{
    if pen <= 0 {
        Vec3 { x: 0, y: 0, z: 0 }
    } else if dist == 0 {
        Vec3 { x: pen, y: 0, z: 0 }
    } else {
        proof {
            assert(0 <= sq(d.x as int)) by (nonlinear_arith);
            assert(0 <= sq(d.y as int)) by (nonlinear_arith);
            assert(0 <= sq(d.z as int)) by (nonlinear_arith);
            lemma_component_le_root(d.x as int, n as int, dist as int);
            lemma_component_le_root(d.y as int, n as int, dist as int);
            lemma_component_le_root(d.z as int, n as int, dist as int);
        }
        Vec3 {
            x: scale_component(d.x, pen, dist),
            y: scale_component(d.y, pen, dist),
            z: scale_component(d.z, pen, dist),
        }
    }
}

/// `a - b` for in-bounds points, with its squared length and rounded-down length.
fn offset(a: Vec3, b: Vec3) -> (r: (Vec3, i64, i64))
    requires
        a.in_bounds(),
        b.in_bounds(),
    ensures
        r.0 == diff(a, b),
        r.1 == dist_sq(a, b),
        r.1 == sq(r.0.x as int) + sq(r.0.y as int) + sq(r.0.z as int),
        is_sqrt_floor(r.1 as int, r.2 as int),
        r.2 == sqrt_floor(dist_sq(a, b)),
        0 <= r.2 < 2147483648,
{
    let d = Vec3 { x: a.x - b.x, y: a.y - b.y, z: a.z - b.z };
    let n = distance_sq(a, b);
    let dist = isqrt(n as u64) as i64;
    (d, n, dist)
}

fn get_mtv_sphere_sphere(obj: &Sphere, other: &Sphere) -> (r: Vec3)
    requires
        obj.wf(),
        other.wf(),
    ensures
        r == sphere_sphere_mtv(*obj, *other),
        mtv_bounded(r),
{
    let (d, n, dist) = offset(obj.center, other.center);
    push_along_exec(d, n, dist, obj.radius + other.radius - dist)
}

fn get_mtv_aabb_sphere(obj: &AABB, other: &Sphere) -> (r: Vec3)
    requires
        obj.wf(),
        other.wf(),
    ensures
        r == aabb_sphere_mtv(*obj, *other),
        mtv_bounded(r),
{
    let p = nearest_point(obj, other.center);
    let (d, n, dist) = offset(other.center, p);
    push_along_exec(d, n, dist, other.radius - dist)
}

/// The translation that moves `obj` out of `other`.
pub fn get_mtv(obj: &Shape, other: &Shape) -> (r: Vec3)
    requires
        obj.wf(),
        other.wf(),
    ensures
        r == mtv(*obj, *other),
        mtv_bounded(r),
{
    match (obj, other) {
        (Shape::AABB(a), Shape::AABB(b)) => get_mtv_aabb_aabb(a, b),
        (Shape::Sphere(a), Shape::Sphere(b)) => get_mtv_sphere_sphere(a, b),
        (Shape::AABB(a), Shape::Sphere(b)) => {
            let m = get_mtv_aabb_sphere(a, b);
            Vec3 { x: -m.x, y: -m.y, z: -m.z }
        },
        (Shape::Sphere(b), Shape::AABB(a)) => get_mtv_aabb_sphere(a, b),
    }
}

fn half_exec(m: i64) -> (r: i128)
    ensures
        r == half(m as int),
{
    let w = m as i128;
    if w >= 0 {
        w / 2
    } else {
        -((-w) / 2)
    }
}

/// Applies the correction `mtv` to the pair as `resolved` states.
pub fn resolve(obj: &mut PhysicsObject, other: &mut PhysicsObject, mtv: Vec3)
    requires
        old(obj).wf(),
        old(other).wf(),
    ensures
        (*final(obj), *final(other)) == resolved(*old(obj), *old(other), mtv),
        final(obj).wf(),
        final(other).wf(),
{
    match (obj.collider_type, other.collider_type) {
        (ColliderType::Dynamic, ColliderType::Dynamic) => {
            let hx = half_exec(mtv.x);
            let hy = half_exec(mtv.y);
            let hz = half_exec(mtv.z);
            let mut a = obj.shape;
            let mut b = other.shape;
            let ok_a = a.try_shift(hx, hy, hz);
            let ok_b = b.try_shift(hx - mtv.x as i128, hy - mtv.y as i128, hz - mtv.z as i128);
            if ok_a && ok_b {
                obj.shape = a;
                other.shape = b;
            }
        },
        (ColliderType::Dynamic, ColliderType::Static) => {
            obj.shape.try_shift(mtv.x as i128, mtv.y as i128, mtv.z as i128);
        },
        (ColliderType::Static, ColliderType::Dynamic) => {
            other.shape.try_shift(-(mtv.x as i128), -(mtv.y as i128), -(mtv.z as i128));
        },
        (ColliderType::Static, ColliderType::Static) => {},
    }
}

/// Corrects the positions of two objects by the translation that moves `obj`
/// out of `other`.
pub fn solve_collision(obj: &mut PhysicsObject, other: &mut PhysicsObject)
    requires
        old(obj).wf(),
        old(other).wf(),
    ensures
        (*final(obj), *final(other)) == resolved(
            *old(obj),
            *old(other),
            mtv(old(obj).shape, old(other).shape),
        ),
        final(obj).wf(),
        final(other).wf(),
{
    let m = get_mtv(&obj.shape, &other.shape);
    resolve(obj, other, m);
}

/// Neither box sticks out of the other on both sides of an axis in the way
/// that makes the least-overlap direction point the wrong way: on each axis,
/// the box that starts first also ends first (or at the same place).
pub open spec fn not_nested(a: AABB, b: AABB) -> bool {
    forall|i: int|
        0 <= i < 3 ==> (a.min.axis(i) < b.min.axis(i) ==> a.max.axis(i) <= b.max.axis(i)) && (
        b.min.axis(i) <= a.min.axis(i) ==> b.max.axis(i) <= a.max.axis(i))
}

/// Whether `resolved` moves anything: at least one object is Dynamic and
/// every shift it calls for keeps its shape in bounds.
pub open spec fn correction_applies(a: PhysicsObject, b: PhysicsObject, m: Vec3) -> bool {
    match (a.collider_type, b.collider_type) {
        (ColliderType::Dynamic, ColliderType::Dynamic) => a.shape.can_shift(
            half(m.x as int),
            half(m.y as int),
            half(m.z as int),
        ) && b.shape.can_shift(
            half(m.x as int) - m.x,
            half(m.y as int) - m.y,
            half(m.z as int) - m.z,
        ),
        (ColliderType::Dynamic, ColliderType::Static) => a.shape.can_shift(
            m.x as int,
            m.y as int,
            m.z as int,
        ),
        (ColliderType::Static, ColliderType::Dynamic) => b.shape.can_shift(-m.x, -m.y, -m.z),
        (ColliderType::Static, ColliderType::Static) => false,
    }
}

/// After two colliding boxes, at least one of them Dynamic, are corrected by
/// their translation vector, they no longer collide (they touch at most).
pub proof fn lemma_resolve_separates(a: PhysicsObject, b: PhysicsObject)
    requires
        a.wf(),
        b.wf(),
        a.shape is AABB,
        b.shape is AABB,
        collides(a.shape, b.shape),
        not_nested(a.shape->AABB_0, b.shape->AABB_0),
        correction_applies(a, b, mtv(a.shape, b.shape)),
    ensures
        !collides(
            resolved(a, b, mtv(a.shape, b.shape)).0.shape,
            resolved(a, b, mtv(a.shape, b.shape)).1.shape,
        ),
{
    let x = a.shape->AABB_0;
    let y = b.shape->AABB_0;
    assert(x.min.axis(0) < y.min.axis(0) ==> x.max.axis(0) <= y.max.axis(0));
    assert(y.min.axis(0) <= x.min.axis(0) ==> y.max.axis(0) <= x.max.axis(0));
    assert(x.min.axis(1) < y.min.axis(1) ==> x.max.axis(1) <= y.max.axis(1));
    assert(y.min.axis(1) <= x.min.axis(1) ==> y.max.axis(1) <= x.max.axis(1));
    assert(x.min.axis(2) < y.min.axis(2) ==> x.max.axis(2) <= y.max.axis(2));
    assert(y.min.axis(2) <= x.min.axis(2) ==> y.max.axis(2) <= x.max.axis(2));
}

} // verus!
