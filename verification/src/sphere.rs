//! Spheres: quadratic ray intersection with nearest-root selection,
//! and the standard spherical surface parameterization.

use vstd::prelude::*;

use std::sync::Arc;

use crate::aabb::AABB;
use crate::angles::{
    acos_qs, atan2_qs, lemma_acos_range, lemma_atan2_range, q_acos, q_atan2, PI_Q, TWO_PI_Q,
};
use crate::material::Material;
use crate::qmath::{
    add_qs, div_qs, lemma_div_qs_unit, max_s, min_s, mul_qs, neg_qs, q_add, q_div, q_max, q_min,
    q_mul, q_neg, q_sqrt, q_sub, sqrt_qs, sub_qs, tdiv_s, ONE, TWO,
};
use crate::ray::{ray_at_s, Ray};
use crate::traceable::{front_face_s, oriented_normal_s, RayHit};
use crate::vec3::{
    dot_s, len_sq_s, lemma_len_sq_nonneg, unit_s, v_add_s, v_sub_s, Point3d, Vec3,
};

verus! {

/// Four in Q16.16, the discriminant's factor.
const FOUR_Q: i64 = 4 * 65536;

/// A sphere with a center, a radius and a material.
pub struct Sphere {
    pub center: Point3d,
    pub radius: i64,
    pub material: Arc<Material>,
}

/// The quadratic coefficient `a = dir . dir` of the intersection
/// equation.
pub open spec fn sphere_a_s(s: Sphere, r: Ray) -> int {
    len_sq_s(r.dir)
}

/// The quadratic coefficient `b = 2 * dir . (origin - center)`.
pub open spec fn sphere_b_s(s: Sphere, r: Ray) -> int {
    mul_qs(131072, dot_s(r.dir, v_sub_s(r.origin, s.center)))
}

/// The quadratic coefficient
/// `c = |origin - center|^2 - radius^2`.
pub open spec fn sphere_c_s(s: Sphere, r: Ray) -> int {
    sub_qs(
        len_sq_s(v_sub_s(r.origin, s.center)),
        mul_qs(s.radius as int, s.radius as int),
    )
}

/// The discriminant `b^2 - 4 a c`.
pub open spec fn sphere_delta_s(s: Sphere, r: Ray) -> int {
    sub_qs(
        mul_qs(sphere_b_s(s, r), sphere_b_s(s, r)),
        mul_qs(mul_qs(262144, sphere_a_s(s, r)), sphere_c_s(s, r)),
    )
}

/// The sphere has intersection candidates: the direction is not
/// degenerate and the discriminant admits real roots.
pub open spec fn sphere_has_cands_s(s: Sphere, r: Ray) -> bool {
    sphere_a_s(s, r) != 0 && sphere_delta_s(s, r) >= 0
}

/// The smaller quadratic root `(-b - sqrt(delta)) / (2 a)`.
pub open spec fn sphere_root1_s(s: Sphere, r: Ray) -> int {
    div_qs(
        sub_qs(neg_qs(sphere_b_s(s, r)), sqrt_qs(sphere_delta_s(s, r))),
        mul_qs(131072, sphere_a_s(s, r)),
    )
}

/// The larger quadratic root `(-b + sqrt(delta)) / (2 a)`.
pub open spec fn sphere_root2_s(s: Sphere, r: Ray) -> int {
    div_qs(
        add_qs(neg_qs(sphere_b_s(s, r)), sqrt_qs(sphere_delta_s(s, r))),
        mul_qs(131072, sphere_a_s(s, r)),
    )
}

/// The spherical surface coordinates of an oriented unit normal:
/// `u = (atan2(-z, x) + pi) / 2 pi` and `v = acos(-y) / pi`, with the
/// arccosine argument clamped into its domain.
pub open spec fn sphere_uv_s(n: Vec3) -> (int, int) {
    (
        div_qs(add_qs(atan2_qs(neg_qs(n.z as int), n.x as int), 205887), 411774),
        div_qs(acos_qs(max_s(-65536, min_s(65536, neg_qs(n.y as int)))), 205887),
    )
}

/// The full hit record the sphere reports at parameter `t`.
pub open spec fn sphere_hit_at_s(s: Sphere, r: Ray, t: int) -> RayHit {
    let p = ray_at_s(r, t);
    let outward = unit_s(v_sub_s(p, s.center));
    let normal = oriented_normal_s(r, outward);
    RayHit {
        p,
        normal,
        t: t as i64,
        u: sphere_uv_s(normal).0 as i64,
        v: sphere_uv_s(normal).1 as i64,
        front_face: front_face_s(r, outward),
        material: s.material,
    }
}

/// The candidate hit at the smaller root.
pub open spec fn sphere_cand1_s(s: Sphere, r: Ray) -> RayHit {
    sphere_hit_at_s(s, r, sphere_root1_s(s, r))
}

/// The candidate hit at the larger root.
pub open spec fn sphere_cand2_s(s: Sphere, r: Ray) -> RayHit {
    sphere_hit_at_s(s, r, sphere_root2_s(s, r))
}

/// `h` is one of the sphere's two intersection candidates.
#[verifier::opaque]
pub open spec fn sphere_is_cand_s(s: Sphere, r: Ray, h: RayHit) -> bool {
    sphere_has_cands_s(s, r) && (h == sphere_cand1_s(s, r) || h == sphere_cand2_s(s, r))
}

/// What the intersection test returns: the smaller root when it lies
/// in range, else the larger root when it does, else nothing.
#[verifier::opaque]
pub open spec fn sphere_hit_spec_s(s: Sphere, r: Ray, t_min: int, t_max: int) -> Option<RayHit> {
    if !sphere_has_cands_s(s, r) {
        None
    } else if t_min <= sphere_root1_s(s, r) <= t_max {
        Some(sphere_cand1_s(s, r))
    } else if t_min <= sphere_root2_s(s, r) <= t_max {
        Some(sphere_cand2_s(s, r))
    } else {
        None
    }
}

/// The box `center +- radius` along each axis.
pub open spec fn sphere_bbox_s(s: Sphere) -> Option<AABB> {
    Some(
        AABB {
            min: v_sub_s(s.center, Vec3 { x: s.radius, y: s.radius, z: s.radius }),
            max: v_add_s(s.center, Vec3 { x: s.radius, y: s.radius, z: s.radius }),
        },
    )
}

/// When the sphere has candidates, the first root never exceeds the
/// second: the same positive denominator divides a smaller numerator.
pub proof fn lemma_sphere_root_order(s: Sphere, r: Ray)
    requires
        sphere_has_cands_s(s, r),
    ensures
        sphere_root1_s(s, r) <= sphere_root2_s(s, r),
{
    let a = sphere_a_s(s, r);
    let b = sphere_b_s(s, r);
    let delta = sphere_delta_s(s, r);
    lemma_len_sq_nonneg(r.dir);
    crate::qmath::lemma_sqrt_floor_props(delta * 65536);
    let sq = sqrt_qs(delta);
    assert(sub_qs(neg_qs(b), sq) <= add_qs(neg_qs(b), sq));
    let den = mul_qs(131072, a);
    assert(131072 * a == (2 * a) * 65536) by (nonlinear_arith);
    vstd::arithmetic::div_mod::lemma_div_by_multiple(2 * a, 65536);
    assert((2 * a) * 65536 == 65536 * (2 * a)) by (nonlinear_arith);
    assert(131072 * a >= 131072) by (nonlinear_arith)
        requires
            a >= 1,
    ;
    assert(tdiv_s(131072 * a, 65536) == 2 * a);
    assert(den >= 2);
    crate::qmath::lemma_div_qs_monotone(sub_qs(neg_qs(b), sq), add_qs(neg_qs(b), sq), den);
}

/// The surface coordinates of any normal lie in the unit square.
pub proof fn lemma_sphere_uv_wf(n: Vec3)
    ensures
        0 <= sphere_uv_s(n).0 <= 65536,
        0 <= sphere_uv_s(n).1 <= 65536,
{
    lemma_atan2_range(neg_qs(n.z as int), n.x as int);
    lemma_div_qs_unit(add_qs(atan2_qs(neg_qs(n.z as int), n.x as int), 205887), 411774);
    lemma_acos_range(max_s(-65536, min_s(65536, neg_qs(n.y as int))));
    lemma_div_qs_unit(acos_qs(max_s(-65536, min_s(65536, neg_qs(n.y as int)))), 205887);
}

impl Sphere {
    /// Build a sphere.
    pub fn new(center: Point3d, radius: i64, material: Arc<Material>) -> (s: Sphere)
        ensures
            s.center == center,
            s.radius == radius,
            s.material == material,
    {
        Sphere { center, radius, material }
    }

    /// The spherical surface coordinates of an oriented unit normal.
    pub fn get_sphere_uv(normal: &Vec3) -> (uv: (i64, i64))
        ensures
            uv.0 as int == sphere_uv_s(*normal).0,
            uv.1 as int == sphere_uv_s(*normal).1,
            0 <= uv.0 <= 65536,
            0 <= uv.1 <= 65536,
    {
        proof {
            lemma_sphere_uv_wf(*normal);
        }
        let phi = q_add(q_atan2(q_neg(normal.z), normal.x), PI_Q);
        let theta = q_acos(q_max(-ONE, q_min(ONE, q_neg(normal.y))));

        (q_div(phi, TWO_PI_Q), q_div(theta, PI_Q))
    }

    /// The sphere's bounding box.
    pub fn bounding_box(&self) -> (b: Option<AABB>)
        ensures
            b == sphere_bbox_s(*self),
    {
        let rad = Vec3::uni(self.radius);
        Some(AABB { min: self.center.sub(rad), max: self.center.add(rad) })
    }

    /// Solve the quadratic intersection equation and report the
    /// nearest root in `[t_min, t_max]`, falling back to the farther
    /// root when the near one is out of range.
    pub fn check_intersection(&self, r: &Ray, t_min: i64, t_max: i64) -> (res: Option<RayHit>)
        ensures
            res == sphere_hit_spec_s(*self, *r, t_min as int, t_max as int),
            res matches Some(h) ==> t_min <= h.t <= t_max && 0 <= h.u <= 65536 && 0 <= h.v
                <= 65536,
    {
        proof {
            reveal(sphere_hit_spec_s);
        }
        let oc = r.origin.sub(self.center);
        let a = r.dir.length_squared();
        let b = q_mul(TWO, r.dir.dot(oc));
        let c = q_sub(oc.length_squared(), q_mul(self.radius, self.radius));

        if a == 0 {
            // A degenerate direction never meets the surface.
            return None;
        }
        let delta = q_sub(q_mul(b, b), q_mul(q_mul(FOUR_Q, a), c));
        if delta < 0 {
            return None;
        }
        let delta_sqrt = q_sqrt(delta);

        let two_a = q_mul(TWO, a);
        let mut root = q_div(q_sub(q_neg(b), delta_sqrt), two_a);
        if !(root >= t_min && root <= t_max) {
            root = q_div(q_add(q_neg(b), delta_sqrt), two_a);
            if !(root >= t_min && root <= t_max) {
                return None;
            }
        }

        let hit_point = r.at(root);
        let normal = hit_point.sub(self.center).unit_vector();
        let (front_face, outward_normal) = RayHit::check_is_front_face(r, normal);
        let (u, v) = Sphere::get_sphere_uv(&outward_normal);
        Some(
            RayHit {
                p: hit_point,
                t: root,
                u,
                v,
                normal: outward_normal,
                front_face,
                material: self.material.clone(),
            },
        )
    }
}

} // verus!
