//! Axis-aligned rectangles: finite in x and y, infinitesimally thin in
//! z, at a constant offset `k` along the plane normal.

use vstd::prelude::*;

use std::sync::Arc;

use crate::aabb::AABB;
use crate::material::Material;
use crate::qmath::{
    add_qs, div_qs, lemma_div_qs_unit, max_s, min_s, q_add, q_div, q_max, q_min, q_sub, sub_qs,
    ONE,
};
use crate::ray::{ray_at_s, Ray};
use crate::traceable::{front_face_s, oriented_normal_s, RayHit};
use crate::vec3::{Vec3};

verus! {

/// The padding that thickens a rectangle's bounding box along its thin
/// axis, so the box never has an empty extent.
pub const RECT_PAD_Q: i64 = 6554;

/// A rectangle in the `z == k` plane, spanning `[x0, x1] x [y0, y1]`.
pub struct Rectangle {
    pub x0: i64,
    pub x1: i64,
    pub y0: i64,
    pub y1: i64,
    /// Offset along the plane normal, like `t` in a ray.
    pub k: i64,
    pub material: Arc<Material>,
}

/// Where the ray crosses the rectangle's plane.
pub open spec fn rect_t_s(rc: Rectangle, r: Ray) -> int {
    div_qs(sub_qs(rc.k as int, r.origin.z as int), r.dir.z as int)
}

/// The crossing point.
pub open spec fn rect_p_s(rc: Rectangle, r: Ray) -> Vec3 {
    ray_at_s(r, rect_t_s(rc, r))
}

/// The ray meets the rectangle: it is not parallel to the plane, and
/// the crossing point lies within the bounds.
pub open spec fn rect_has_cand_s(rc: Rectangle, r: Ray) -> bool {
    let p = rect_p_s(rc, r);
    r.dir.z != 0 && rc.x0 <= p.x <= rc.x1 && rc.y0 <= p.y <= rc.y1
}

/// The rectangle's candidate hit: the crossing point, the normalized
/// position within the bounds as surface coordinates, and the plane
/// normal oriented against the ray.
pub open spec fn rect_cand_s(rc: Rectangle, r: Ray) -> RayHit {
    let t = rect_t_s(rc, r);
    let p = rect_p_s(rc, r);
    let outward = Vec3 { x: 0, y: 0, z: 65536 };
    RayHit {
        p,
        normal: oriented_normal_s(r, outward),
        t: t as i64,
        u: div_qs(sub_qs(p.x as int, rc.x0 as int), sub_qs(rc.x1 as int, rc.x0 as int)) as i64,
        v: div_qs(sub_qs(p.y as int, rc.y0 as int), sub_qs(rc.y1 as int, rc.y0 as int)) as i64,
        front_face: front_face_s(r, outward),
        material: rc.material,
    }
}

/// `h` is the rectangle's single intersection candidate.
#[verifier::opaque]
pub open spec fn rect_is_cand_s(rc: Rectangle, r: Ray, h: RayHit) -> bool {
    rect_has_cand_s(rc, r) && h == rect_cand_s(rc, r)
}

/// What the intersection test returns: the crossing, when it exists
/// and lies in range.
#[verifier::opaque]
pub open spec fn rect_hit_spec_s(rc: Rectangle, r: Ray, t_min: int, t_max: int) -> Option<
    RayHit,
> {
    if rect_has_cand_s(rc, r) && t_min <= rect_t_s(rc, r) <= t_max {
        Some(rect_cand_s(rc, r))
    } else {
        None
    }
}

/// The rectangle's bounds, padded along the thin axis.
pub open spec fn rect_bbox_s(rc: Rectangle) -> Option<AABB> {
    Some(
        AABB {
            min: Vec3 { x: rc.x0, y: rc.y0, z: sub_qs(rc.k as int, 6554) as i64 },
            max: Vec3 { x: rc.x1, y: rc.y1, z: add_qs(rc.k as int, 6554) as i64 },
        },
    )
}

impl Rectangle {
    /// Build a rectangle from two corner points in the plane, ordering
    /// the bounds.
    pub fn new(p0: (i64, i64), p1: (i64, i64), k: i64, material: Arc<Material>) -> (rc: Rectangle)
        ensures
            rc.x0 as int == min_s(p0.0 as int, p1.0 as int),
            rc.y0 as int == min_s(p0.1 as int, p1.1 as int),
            rc.x1 as int == max_s(p0.0 as int, p1.0 as int),
            rc.y1 as int == max_s(p0.1 as int, p1.1 as int),
            rc.k == k,
            rc.material == material,
    {
        Rectangle {
            x0: q_min(p0.0, p1.0),
            y0: q_min(p0.1, p1.1),
            x1: q_max(p0.0, p1.0),
            y1: q_max(p0.1, p1.1),
            k,
            material,
        }
    }

    /// The rectangle's bounding box, padded a bit along the thin axis
    /// so it never has an empty extent.
    pub fn bounding_box(&self) -> (b: Option<AABB>)
        ensures
            b == rect_bbox_s(*self),
    {
        Some(
            AABB {
                min: Vec3 { x: self.x0, y: self.y0, z: q_sub(self.k, RECT_PAD_Q) },
                max: Vec3 { x: self.x1, y: self.y1, z: q_add(self.k, RECT_PAD_Q) },
            },
        )
    }

    /// Cross the ray with the plane and keep the crossing when it lies
    /// in range and within the bounds.
    pub fn check_intersection(&self, r: &Ray, t_min: i64, t_max: i64) -> (res: Option<RayHit>)
        ensures
            res == rect_hit_spec_s(*self, *r, t_min as int, t_max as int),
            res matches Some(h) ==> t_min <= h.t <= t_max && 0 <= h.u <= 65536 && 0 <= h.v
                <= 65536,
    {
        proof {
            reveal(rect_hit_spec_s);
        }
        if r.dir.z == 0 {
            // A ray parallel to the plane never crosses it.
            return None;
        }
        let t = q_div(q_sub(self.k, r.origin.z), r.dir.z);
        if t < t_min || t > t_max {
            return None;
        }

        let p = r.at(t);
        if p.x < self.x0 || p.x > self.x1 || p.y < self.y0 || p.y > self.y1 {
            return None;
        }

        proof {
            lemma_div_qs_unit(
                sub_qs(p.x as int, self.x0 as int),
                sub_qs(self.x1 as int, self.x0 as int),
            );
            lemma_div_qs_unit(
                sub_qs(p.y as int, self.y0 as int),
                sub_qs(self.y1 as int, self.y0 as int),
            );
        }
        let normal = Vec3::forward().neg();
        let (front_face, outward_normal) = RayHit::check_is_front_face(r, normal);
        Some(
            RayHit {
                p,
                t,
                u: q_div(q_sub(p.x, self.x0), q_sub(self.x1, self.x0)),
                v: q_div(q_sub(p.y, self.y0), q_sub(self.y1, self.y0)),
                normal: outward_normal,
                front_face,
                material: self.material.clone(),
            },
        )
    }
}

} // verus!
