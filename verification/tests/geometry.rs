//! Geometry: boxes, the slab test, primitive intersection, transforms
//! and the spatial index against the linear scan.

use std::sync::Arc;

use rand::SeedableRng;

use pathtracer::aabb::AABB;
use pathtracer::box_prim::BoxPrim;
use pathtracer::bvh::{sort_by_axis_distance, BVHNode, BvhBuildError};
use pathtracer::material::{Material, SolidColor};
use pathtracer::ray::Ray;
use pathtracer::rectangle::Rectangle;
use pathtracer::sphere::Sphere;
use pathtracer::traceable::Traceable;
use pathtracer::transform::{Mat3, Transform};
use pathtracer::utils::reflect;
use pathtracer::vec3::Vec3;
use pathtracer::volumetric::Volumetric;
use pathtracer::world::World;

const ONE: i64 = 65536;
const TOL: i64 = 655;

fn plain_material() -> Arc<Material> {
    Arc::new(Material::Solid(SolidColor { color: Vec3::new(ONE, ONE, ONE) }))
}

fn unit_box(cx: i64, cy: i64, cz: i64) -> AABB {
    AABB {
        min: Vec3::new(cx - ONE, cy - ONE, cz - ONE),
        max: Vec3::new(cx + ONE, cy + ONE, cz + ONE),
    }
}

#[test]
fn merge_is_commutative_associative_idempotent() {
    let a = unit_box(0, 0, 0);
    let b = unit_box(3 * ONE, -ONE, 2 * ONE);
    let c = unit_box(-5 * ONE, 4 * ONE, 0);
    let ab = AABB::merge(&a, &b);
    let ba = AABB::merge(&b, &a);
    assert_eq!(ab, ba);
    let ab_c = AABB::merge(&AABB::merge(&a, &b), &c);
    let a_bc = AABB::merge(&a, &AABB::merge(&b, &c));
    assert_eq!(ab_c, a_bc);
    assert_eq!(AABB::merge(&a, &a), a);
}

#[test]
fn from_point_cloud_bounds_points() {
    let pts = [
        Vec3::new(ONE, 0, -ONE),
        Vec3::new(-2 * ONE, 3 * ONE, 0),
        Vec3::new(0, -ONE, 5 * ONE),
    ];
    let bb = AABB::from_point_cloud(&pts);
    assert_eq!(bb.min, Vec3::new(-2 * ONE, -ONE, -ONE));
    assert_eq!(bb.max, Vec3::new(ONE, 3 * ONE, 5 * ONE));
}

#[test]
fn slab_test_hits_and_misses() {
    let bb = unit_box(0, 0, -5 * ONE);
    let toward = Ray::new(Vec3::zero(), Vec3::new(0, 0, -ONE));
    assert!(bb.check_intersection(&toward, 66, i64::MAX));
    let away = Ray::new(Vec3::zero(), Vec3::new(0, 0, ONE));
    assert!(!bb.check_intersection(&away, 66, i64::MAX));
    let sideways = Ray::new(Vec3::new(5 * ONE, 0, 0), Vec3::new(0, 0, -ONE));
    assert!(!bb.check_intersection(&sideways, 66, i64::MAX));
}

#[test]
fn sphere_hit_toward_center() {
    let s = Sphere::new(Vec3::new(0, 0, -3 * ONE), ONE, plain_material());
    let r = Ray::new(Vec3::zero(), Vec3::new(0, 0, -ONE));
    let hit = s.check_intersection(&r, 66, i64::MAX).expect("must hit");
    // distance to surface is 3 - 1 = 2
    assert!((hit.t - 2 * ONE).abs() <= TOL, "t = {}", hit.t);
    assert!(hit.front_face);
    assert!(0 <= hit.u && hit.u <= ONE);
    assert!(0 <= hit.v && hit.v <= ONE);
}

#[test]
fn sphere_miss_away_from_center() {
    let s = Sphere::new(Vec3::new(0, 0, -3 * ONE), ONE, plain_material());
    let r = Ray::new(Vec3::zero(), Vec3::new(0, 0, ONE));
    assert!(s.check_intersection(&r, 66, i64::MAX).is_none());
}

#[test]
fn sphere_inside_uses_far_root() {
    let s = Sphere::new(Vec3::zero(), 2 * ONE, plain_material());
    let r = Ray::new(Vec3::zero(), Vec3::new(0, 0, -ONE));
    let hit = s.check_intersection(&r, 66, i64::MAX).expect("must hit");
    assert!((hit.t - 2 * ONE).abs() <= TOL);
    assert!(!hit.front_face);
}

#[test]
fn rectangle_hit_and_bounds() {
    let rc = Rectangle::new((-ONE, -ONE), (ONE, ONE), -2 * ONE, plain_material());
    let r = Ray::new(Vec3::zero(), Vec3::new(0, 0, -ONE));
    let hit = rc.check_intersection(&r, 66, i64::MAX).expect("must hit");
    assert!((hit.t - 2 * ONE).abs() <= TOL);
    // dead center of the rectangle
    assert!((hit.u - ONE / 2).abs() <= TOL);
    assert!((hit.v - ONE / 2).abs() <= TOL);
    let outside = Ray::new(Vec3::new(3 * ONE, 0, 0), Vec3::new(0, 0, -ONE));
    assert!(rc.check_intersection(&outside, 66, i64::MAX).is_none());
}

#[test]
fn transform_round_trip_recovers_point() {
    let rot = Mat3::rotation_y_quarter();
    let inv = rot.transpose();
    let translation = Vec3::new(ONE, -2 * ONE, 3 * ONE);
    let p = Vec3::new(5 * ONE, 7 * ONE, -2 * ONE);
    // outer to object space, then back
    let obj = rot.mul_vec(p.add(translation));
    let back = inv.mul_vec(obj).sub(translation);
    assert!((back.x - p.x).abs() <= TOL);
    assert!((back.y - p.y).abs() <= TOL);
    assert!((back.z - p.z).abs() <= TOL);
}

#[test]
fn identity_transform_intersects_like_bare_sphere() {
    let s = Sphere::new(Vec3::new(0, 0, -3 * ONE), ONE, plain_material());
    let bare = Traceable::Sphere(Sphere::new(Vec3::new(0, 0, -3 * ONE), ONE, plain_material()));
    let wrapped = Traceable::Transform(Transform::from_transform_rot(
        Mat3::identity(),
        Vec3::zero(),
        Arc::new(Traceable::Sphere(s)),
    ));
    let mut rng = rand::rngs::StdRng::seed_from_u64(7);
    for dz in [-ONE, -ONE / 2] {
        for dx in [-ONE / 4, 0, ONE / 4] {
            let r = Ray::new(Vec3::zero(), Vec3::new(dx, 0, dz));
            let a = bare.check_intersection(&r, 66, i64::MAX, &mut rng);
            let b = wrapped.check_intersection(&r, 66, i64::MAX, &mut rng);
            assert_eq!(a.is_some(), b.is_some());
            if let (Some(ha), Some(hb)) = (a, b) {
                assert_eq!(ha.t, hb.t);
                assert_eq!(ha.p, hb.p);
                assert_eq!(ha.u, hb.u);
                assert_eq!(ha.v, hb.v);
                assert_eq!(ha.front_face, hb.front_face);
            }
        }
    }
}

fn scatter_of_spheres() -> World {
    let mut world = World::new();
    let centers = [
        (0, 0, -4),
        (2, 1, -6),
        (-2, -1, -5),
        (1, -2, -8),
        (-1, 2, -3),
        (3, 0, -7),
        (0, 3, -9),
        (-3, -2, -4),
    ];
    for (i, (x, y, z)) in centers.iter().enumerate() {
        let radius = ONE / 2 + (i as i64) * ONE / 8;
        world.add(Arc::new(Traceable::Sphere(Sphere::new(
            Vec3::new(x * ONE, y * ONE, z * ONE),
            radius,
            plain_material(),
        ))));
    }
    world
}

#[test]
fn bvh_matches_linear_scan() {
    let world = scatter_of_spheres();
    for seed in [1u64, 2, 3] {
        let mut rng = rand::rngs::StdRng::seed_from_u64(seed);
        let tree = BVHNode::build(&world, &mut rng).expect("build must succeed");
        let bvh = Traceable::Bvh(tree);
        for ix in -4..5i64 {
            for iy in -4..5i64 {
                let dir = Vec3::new(ix * ONE / 4, iy * ONE / 4, -ONE).unit_vector();
                let r = Ray::new(Vec3::zero(), dir);
                let linear = world.check_intersection(&r, 66, i64::MAX, &mut rng);
                let indexed = bvh.check_intersection(&r, 66, i64::MAX, &mut rng);
                assert_eq!(linear.is_some(), indexed.is_some());
                if let (Some(a), Some(b)) = (linear, indexed) {
                    assert_eq!(a.t, b.t);
                    assert_eq!(a.p, b.p);
                }
            }
        }
    }
}

#[test]
fn bvh_build_rejects_empty_world() {
    let world = World::new();
    let mut rng = rand::rngs::StdRng::seed_from_u64(1);
    assert_eq!(BVHNode::build(&world, &mut rng).err(), Some(BvhBuildError::EmptyWorld));
}

#[test]
fn bvh_build_rejects_unbounded_object() {
    let mut world = World::new();
    // an empty collection has no bounding box
    world.add(Arc::new(Traceable::World(World::new())));
    let mut rng = rand::rngs::StdRng::seed_from_u64(1);
    assert_eq!(
        BVHNode::build(&world, &mut rng).err(),
        Some(BvhBuildError::MissingBoundingBox)
    );
}

#[test]
fn world_scan_returns_nearest() {
    let mut world = World::new();
    // farther sphere added first
    world.add(Arc::new(Traceable::Sphere(Sphere::new(
        Vec3::new(0, 0, -8 * ONE),
        ONE,
        plain_material(),
    ))));
    world.add(Arc::new(Traceable::Sphere(Sphere::new(
        Vec3::new(0, 0, -3 * ONE),
        ONE,
        plain_material(),
    ))));
    let mut rng = rand::rngs::StdRng::seed_from_u64(1);
    let r = Ray::new(Vec3::zero(), Vec3::new(0, 0, -ONE));
    let hit = world.check_intersection(&r, 66, i64::MAX, &mut rng).expect("must hit");
    assert!((hit.t - 2 * ONE).abs() <= TOL);
}

#[test]
fn sort_orders_by_low_corner_on_axis() {
    let mut objects: Vec<Arc<Traceable>> = Vec::new();
    for x in [5i64, -3, 9, 0, -7, 2] {
        objects.push(Arc::new(Traceable::Sphere(Sphere::new(
            Vec3::new(x * ONE, 0, 0),
            ONE,
            plain_material(),
        ))));
    }
    sort_by_axis_distance(&mut objects, 0);
    assert_eq!(objects.len(), 6);
    let mut previous = i64::MIN;
    for o in &objects {
        let low = o.bounding_box().expect("spheres are bounded").min.x;
        assert!(previous <= low);
        previous = low;
    }
}

#[test]
fn box_prim_dims_and_faces() {
    let b = BoxPrim::new(Vec3::new(2 * ONE, 2 * ONE, 2 * ONE), plain_material());
    assert_eq!(b.dims(), Vec3::new(2 * ONE, 2 * ONE, 2 * ONE));
    let mut rng = rand::rngs::StdRng::seed_from_u64(2);
    let r = Ray::new(Vec3::new(0, 0, 5 * ONE), Vec3::new(0, 0, -ONE));
    let hit = b.check_intersection(&r, 66, i64::MAX, &mut rng).expect("must hit the front face");
    assert!((hit.t - 4 * ONE).abs() <= TOL, "t = {}", hit.t);
}

#[test]
fn volumetric_hits_stay_in_range() {
    let shape = Arc::new(Traceable::Sphere(Sphere::new(
        Vec3::new(0, 0, -4 * ONE),
        ONE,
        plain_material(),
    )));
    let fog = Volumetric::color(shape, 50 * ONE, Vec3::new(ONE / 2, ONE / 2, ONE / 2));
    let mut rng = rand::rngs::StdRng::seed_from_u64(21);
    let r = Ray::new(Vec3::zero(), Vec3::new(0, 0, -ONE));
    let mut scattered = 0;
    for _ in 0..64 {
        if let Some(hit) = fog.check_intersection(&r, 66, 10 * ONE, &mut rng) {
            assert!(66 <= hit.t && hit.t <= 10 * ONE);
            scattered += 1;
        }
    }
    assert!(scattered > 0, "a dense fog must scatter sometimes");
}

#[test]
fn world_clear_empties_the_collection() {
    let mut world = World::new();
    world.add(Arc::new(Traceable::Sphere(Sphere::new(Vec3::zero(), ONE, plain_material()))));
    assert_eq!(world.objects.len(), 1);
    world.clear();
    assert_eq!(world.objects.len(), 0);
}

#[test]
fn reflect_mirrors_about_the_normal() {
    let v = Vec3::new(ONE, -ONE, 0);
    let n = Vec3::new(0, ONE, 0);
    assert_eq!(reflect(v, n), Vec3::new(ONE, ONE, 0));
}

#[test]
fn corners_rebuild_their_box_exactly() {
    let b = unit_box(3 * ONE, -2 * ONE, 7 * ONE);
    let rebuilt = AABB::from_point_cloud(&b.to_points());
    assert_eq!(rebuilt, b);
}

#[test]
fn volumetric_empty_clamped_segment_never_scatters() {
    let shape = Arc::new(Traceable::Sphere(Sphere::new(
        Vec3::new(0, 0, -4 * ONE),
        ONE,
        plain_material(),
    )));
    let fog = Volumetric::color(shape, 50 * ONE, Vec3::new(ONE / 2, ONE / 2, ONE / 2));
    let mut rng = rand::rngs::StdRng::seed_from_u64(23);
    let r = Ray::new(Vec3::zero(), Vec3::new(0, 0, -ONE));
    // the search range ends before the ray even enters the shape
    for _ in 0..64 {
        assert!(fog.check_intersection(&r, 66, 2 * ONE, &mut rng).is_none());
    }
}
