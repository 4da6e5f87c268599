use bugsyth_engine::math::Vec3;
use bugsyth_engine::physics::collision::test_collision;
use bugsyth_engine::physics::physics_object::{ColliderType, PhysicsObject};
use bugsyth_engine::physics::shapes::{Shape, Sphere, AABB};
use bugsyth_engine::physics::solutions::{get_mtv, resolve, solve_collision};
use bugsyth_engine::physics::World;

fn aabb(min: (i64, i64, i64), max: (i64, i64, i64)) -> Shape {
    Shape::AABB(AABB::new(Vec3::new(min.0, min.1, min.2), Vec3::new(max.0, max.1, max.2)))
}

fn sphere(c: (i64, i64, i64), r: i64) -> Shape {
    Shape::Sphere(Sphere::new(Vec3::new(c.0, c.1, c.2), r))
}

#[test]
fn aabb_overlapping_on_all_axes_collide() {
    let a = aabb((0, 0, 0), (10, 10, 10));
    let b = aabb((5, 5, 5), (15, 15, 15));
    assert!(test_collision(&a, &b));
    assert!(test_collision(&b, &a));
}

#[test]
fn aabb_separated_on_one_axis_do_not_collide() {
    let a = aabb((0, 0, 0), (10, 10, 10));
    let b = aabb((5, 11, 5), (15, 20, 15));
    assert!(!test_collision(&a, &b));
}

#[test]
fn aabb_sharing_a_face_do_not_collide() {
    let a = aabb((0, 0, 0), (10, 10, 10));
    let b = aabb((10, 0, 0), (20, 10, 10));
    assert!(!test_collision(&a, &b));
}

#[test]
fn touching_spheres_collide() {
    let a = sphere((0, 0, 0), 3);
    let b = sphere((3, 4, 0), 2);
    assert!(test_collision(&a, &b));
    let c = sphere((3, 4, 1), 2);
    assert!(!test_collision(&a, &c));
}

#[test]
fn aabb_sphere_collision() {
    let a = aabb((0, 0, 0), (10, 10, 10));
    assert!(test_collision(&a, &sphere((13, 5, 5), 3)));
    assert!(test_collision(&sphere((13, 5, 5), 3), &a));
    assert!(!test_collision(&a, &sphere((14, 5, 5), 3)));
    assert!(test_collision(&a, &sphere((5, 5, 5), 0)));
}

#[test]
fn mtv_picks_axis_of_least_overlap() {
    // unit boxes in thousandths: overlap 0.3 on x, 0.8 on y, 1.0 on z
    let a = aabb((0, 0, 0), (1000, 1000, 1000));
    let b = aabb((700, 200, 0), (1700, 1200, 1000));
    assert_eq!(get_mtv(&a, &b), Vec3::new(-300, 0, 0));
    assert_eq!(get_mtv(&b, &a), Vec3::new(300, 0, 0));
}

#[test]
fn mtv_is_zero_without_overlap() {
    let a = aabb((0, 0, 0), (10, 10, 10));
    let b = aabb((10, 0, 0), (20, 10, 10));
    assert_eq!(get_mtv(&a, &b), Vec3::new(0, 0, 0));
}

#[test]
fn mtv_ties_prefer_x_then_y() {
    let a = aabb((0, 0, 0), (10, 10, 10));
    let b = aabb((8, 8, 5), (18, 18, 15));
    assert_eq!(get_mtv(&a, &b), Vec3::new(-2, 0, 0));
    let c = aabb((0, 8, 8), (10, 18, 18));
    assert_eq!(get_mtv(&a, &c), Vec3::new(0, -2, 0));
}

#[test]
fn mtv_sphere_sphere_pushes_apart() {
    let a = sphere((0, 0, 0), 5);
    let b = sphere((6, 8, 0), 10);
    // distance 10, penetration 5, direction from b to a is (-0.6, -0.8, 0)
    assert_eq!(get_mtv(&a, &b), Vec3::new(-3, -4, 0));
    assert_eq!(get_mtv(&b, &a), Vec3::new(3, 4, 0));
}

#[test]
fn mtv_sphere_sphere_same_center() {
    let a = sphere((1, 1, 1), 2);
    let b = sphere((1, 1, 1), 3);
    assert_eq!(get_mtv(&a, &b), Vec3::new(5, 0, 0));
}

#[test]
fn mtv_aabb_sphere() {
    let a = aabb((0, 0, 0), (10, 10, 10));
    let s = sphere((12, 5, 5), 5);
    // nearest point (10, 5, 5), distance 2, penetration 3
    assert_eq!(get_mtv(&s, &a), Vec3::new(3, 0, 0));
    assert_eq!(get_mtv(&a, &s), Vec3::new(-3, 0, 0));
}

#[test]
fn resolve_dynamic_static_separates() {
    let mut a = PhysicsObject::new(aabb((0, 0, 0), (1000, 1000, 1000)), ColliderType::Dynamic);
    let mut b = PhysicsObject::new(aabb((700, 200, 0), (1700, 1200, 1000)), ColliderType::Static);
    let m = get_mtv(&a.shape, &b.shape);
    resolve(&mut a, &mut b, m);
    assert_eq!(a.shape, aabb((-300, 0, 0), (700, 1000, 1000)));
    assert_eq!(b.shape, aabb((700, 200, 0), (1700, 1200, 1000)));
    assert!(!test_collision(&a.shape, &b.shape));
}

#[test]
fn resolve_policy_table() {
    let m = Vec3::new(-3, 0, 0);
    let s = aabb((0, 0, 0), (10, 10, 10));
    let t = aabb((8, 0, 0), (18, 10, 10));

    let mut a = PhysicsObject::new(s, ColliderType::Dynamic);
    let mut b = PhysicsObject::new(t, ColliderType::Dynamic);
    resolve(&mut a, &mut b, m);
    assert_eq!(a.shape, aabb((-1, 0, 0), (9, 10, 10)));
    assert_eq!(b.shape, aabb((10, 0, 0), (20, 10, 10)));

    let mut a = PhysicsObject::new(s, ColliderType::Static);
    let mut b = PhysicsObject::new(t, ColliderType::Dynamic);
    resolve(&mut a, &mut b, m);
    assert_eq!(a.shape, s);
    assert_eq!(b.shape, aabb((11, 0, 0), (21, 10, 10)));

    let mut a = PhysicsObject::new(s, ColliderType::Static);
    let mut b = PhysicsObject::new(t, ColliderType::Static);
    resolve(&mut a, &mut b, m);
    assert_eq!(a.shape, s);
    assert_eq!(b.shape, t);
}

#[test]
fn solve_collision_moves_dynamic_sphere() {
    let mut a = PhysicsObject::new(sphere((0, 0, 0), 5), ColliderType::Dynamic);
    let mut b = PhysicsObject::new(sphere((6, 8, 0), 10), ColliderType::Static);
    solve_collision(&mut a, &mut b);
    assert_eq!(a.shape, sphere((-3, -4, 0), 5));
    assert_eq!(b.shape, sphere((6, 8, 0), 10));
}

#[test]
fn translate_moves_corners_and_centers() {
    let mut s = aabb((0, 0, 0), (1, 2, 3));
    s.translate(Vec3::new(1, -1, 2));
    assert_eq!(s, aabb((1, -1, 2), (2, 1, 5)));
    let mut c = sphere((0, 0, 0), 4);
    c.translate(Vec3::new(5, 6, 7));
    assert_eq!(c, sphere((5, 6, 7), 4));
}

#[test]
fn world_update_resolves_collisions() {
    let mut w = World::new();
    let floor = w.add_object(PhysicsObject::new(aabb((0, 0, 0), (100, 10, 100)), ColliderType::Static));
    let boxh = w.add_object(PhysicsObject::new(aabb((10, 8, 10), (20, 18, 20)), ColliderType::Dynamic));
    w.update();
    assert_eq!(w.get_object(floor).unwrap().shape, aabb((0, 0, 0), (100, 10, 100)));
    assert_eq!(w.get_object(boxh).unwrap().shape, aabb((10, 10, 10), (20, 20, 20)));
}

#[test]
fn handles_are_never_reused() {
    let mut w = World::new();
    let o = PhysicsObject::new(aabb((0, 0, 0), (1, 1, 1)), ColliderType::Static);
    let h1 = w.add_object(o);
    let h2 = w.add_object(o);
    let h3 = w.add_object(o);
    w.remove_object(h2);
    assert_eq!(w.len(), 2);
    assert!(w.get_object(h1).is_some());
    assert!(w.get_object(h3).is_some());
    assert!(w.get_object(h2).is_none());
    assert_ne!(h1, h3);
    let h4 = w.add_object(o);
    assert_ne!(h4, h2);
    assert_ne!(h4, h1);
    assert_ne!(h4, h3);
    w.remove_object(1000);
    assert_eq!(w.len(), 3);
}

#[test]
fn update_corrects_pairs_in_order_seeing_earlier_corrections() {
    let mut w = World::new();
    let floor = w.add_object(PhysicsObject::new(aabb((0, 0, 0), (100, 10, 100)), ColliderType::Static));
    let a = w.add_object(PhysicsObject::new(aabb((10, 8, 10), (20, 18, 20)), ColliderType::Dynamic));
    let b = w.add_object(PhysicsObject::new(aabb((10, 16, 10), (20, 26, 20)), ColliderType::Dynamic));
    w.update();
    assert_eq!(w.get_object(floor).unwrap().shape, aabb((0, 0, 0), (100, 10, 100)));
    assert_eq!(w.get_object(a).unwrap().shape, aabb((10, 8, 10), (20, 18, 20)));
    assert_eq!(w.get_object(b).unwrap().shape, aabb((10, 18, 10), (20, 28, 20)));
}

#[test]
fn resolve_dynamic_dynamic_separates() {
    let mut a = PhysicsObject::new(aabb((0, 0, 0), (10, 10, 10)), ColliderType::Dynamic);
    let mut b = PhysicsObject::new(aabb((7, 0, 0), (17, 10, 10)), ColliderType::Dynamic);
    let m = get_mtv(&a.shape, &b.shape);
    assert_eq!(m, Vec3::new(-3, 0, 0));
    resolve(&mut a, &mut b, m);
    assert_eq!(a.shape, aabb((-1, 0, 0), (9, 10, 10)));
    assert_eq!(b.shape, aabb((9, 0, 0), (19, 10, 10)));
    assert!(!test_collision(&a.shape, &b.shape));
}

#[test]
fn correction_out_of_bounds_is_not_applied() {
    let limit = bugsyth_engine::math::COORD_LIMIT;
    let mut a = PhysicsObject::new(aabb((-limit, 0, 0), (-limit + 10, 10, 10)), ColliderType::Dynamic);
    let mut b = PhysicsObject::new(aabb((-limit + 5, 0, 0), (-limit + 20, 10, 10)), ColliderType::Static);
    solve_collision(&mut a, &mut b);
    assert_eq!(a.shape, aabb((-limit, 0, 0), (-limit + 10, 10, 10)));
}

#[test]
fn replace_object_moves_a_registered_object() {
    let mut w = World::new();
    let h = w.add_object(PhysicsObject::new(aabb((0, 0, 0), (1, 1, 1)), ColliderType::Dynamic));
    let moved = PhysicsObject::new(aabb((5, 5, 5), (6, 6, 6)), ColliderType::Dynamic);
    assert!(w.replace_object(h, moved));
    assert_eq!(w.get_object(h), Some(moved));
    assert!(!w.replace_object(h + 1, moved));
    assert_eq!(w.len(), 1);
}

#[test]
fn capsule_can_be_built() {
    let _c = bugsyth_engine::physics::shapes::capsule::Capsule::new(Vec3::new(0, 10, 0), Vec3::zero(), 2);
}
