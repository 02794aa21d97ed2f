//! Vector arithmetic at Q16.16 scale: one unit is 65536.

use pathtracer::ray::Ray;
use pathtracer::vec3::Vec3;

const ONE: i64 = 65536;
const TOL: i64 = 655;

fn assert_eq_v(v: Vec3, a: i64, b: i64, c: i64) {
    assert!((v.x - a).abs() <= TOL, "x: {} vs {}", v.x, a);
    assert!((v.y - b).abs() <= TOL, "y: {} vs {}", v.y, b);
    assert!((v.z - c).abs() <= TOL, "z: {} vs {}", v.z, c);
}

#[test]
fn negate() {
    let v = Vec3::new(ONE, 2 * ONE, 3 * ONE);
    assert_eq_v(v.neg(), -ONE, -2 * ONE, -3 * ONE);
}

#[test]
fn add() {
    let v = Vec3::new(ONE, 2 * ONE, 3 * ONE);
    let b = Vec3::new(4 * ONE, 5 * ONE, 6 * ONE);
    assert_eq_v(v.add(b), 5 * ONE, 7 * ONE, 9 * ONE);
}

#[test]
fn sub() {
    let b = Vec3::new(4 * ONE, ONE, 10 * ONE);
    let v = Vec3::new(ONE, 2 * ONE, 3 * ONE);
    assert_eq_v(b.sub(v), 3 * ONE, -ONE, 7 * ONE);
}

#[test]
fn mul() {
    let v = Vec3::new(ONE, 2 * ONE, 3 * ONE);
    assert_eq_v(v.scale(2 * ONE), 2 * ONE, 4 * ONE, 6 * ONE);
}

#[test]
fn div() {
    let v = Vec3::new(ONE, 2 * ONE, 3 * ONE);
    assert_eq_v(v.div(2 * ONE), ONE / 2, ONE, 3 * ONE / 2);
}

#[test]
fn length() {
    let v = Vec3::new(ONE, 2 * ONE, 3 * ONE);
    // |(1,2,3)| = sqrt(14)
    let expected = 245213;
    assert!((v.length() - expected).abs() <= TOL);
}

#[test]
fn length_squared() {
    let v = Vec3::new(ONE, 2 * ONE, 3 * ONE);
    assert_eq!(v.length_squared(), 14 * ONE);
}

#[test]
fn dot() {
    let v = Vec3::new(ONE, 2 * ONE, 3 * ONE);
    let b = Vec3::new(4 * ONE, 5 * ONE, 6 * ONE);
    // 4 + 10 + 18
    assert_eq!(v.dot(b), 32 * ONE);
}

#[test]
fn cross() {
    let a = Vec3::new(3 * ONE, -3 * ONE, ONE);
    let b = Vec3::new(4 * ONE, 9 * ONE, 2 * ONE);
    assert_eq_v(a.cross(b), -15 * ONE, -2 * ONE, 39 * ONE);
}

#[test]
fn unit_vector() {
    let v = Vec3::new(ONE, 2 * ONE, 3 * ONE);
    let unit = v.unit_vector();
    assert!((unit.length() - ONE).abs() <= TOL);
    assert_eq_v(v, ONE, 2 * ONE, 3 * ONE);
}

#[test]
fn constructed_rays_normalize() {
    let r = Ray::new(Vec3::zero(), Vec3::new(2 * ONE, 0, 0));
    assert_eq!(r.dir, Vec3::new(ONE, 0, 0));
    assert_eq!(r.origin, Vec3::zero());
}
