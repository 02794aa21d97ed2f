//! The hit record and the closed family of intersectable shapes.

use vstd::prelude::*;

use std::sync::Arc;

use crate::aabb::{merge_s, slab_hit_s, AABB};
use crate::box_prim::BoxPrim;
use crate::bvh::BVHNode;
use crate::material::Material;
use crate::ray::Ray;
use crate::rectangle::{rect_bbox_s, rect_hit_spec_s, rect_is_cand_s, Rectangle};
use crate::sphere::{sphere_bbox_s, sphere_hit_spec_s, sphere_is_cand_s, Sphere};
use crate::transform::{inner_ray_s, xform_hit_s, Transform};
use crate::vec3::{dot_s, v_neg_s, Vec3};
use crate::volumetric::Volumetric;
use crate::world::World;

verus! {

/// The result of a ray-shape intersection.
pub struct RayHit {
    /// Point of hit.
    pub p: Vec3,
    /// Normal at the place of hit, oriented against the incoming ray.
    pub normal: Vec3,
    /// Ray distance from origin.
    pub t: i64,
    /// Texture coordinate, first axis, in `[0, 1]`.
    pub u: i64,
    /// Texture coordinate, second axis, in `[0, 1]`.
    pub v: i64,
    /// Whether the outward normal faced the incoming ray.
    pub front_face: bool,
    /// The material of the surface that was hit.
    pub material: Arc<Material>,
}

/// The incoming ray sees the front of a surface with this outward
/// normal.
pub open spec fn front_face_s(r: Ray, outward_normal: Vec3) -> bool {
    dot_s(r.dir, outward_normal) < 0
}

/// The normal oriented against the incoming ray.
pub open spec fn oriented_normal_s(r: Ray, outward_normal: Vec3) -> Vec3 {
    if front_face_s(r, outward_normal) {
        outward_normal
    } else {
        v_neg_s(outward_normal)
    }
}

/// Surface coordinates lie in the unit square.
pub open spec fn hit_uv_wf(h: RayHit) -> bool {
    0 <= h.u <= 65536 && 0 <= h.v <= 65536
}

impl RayHit {
    /// Fixed-point distances are always finite values.
    pub fn has_hit(&self) -> (r: bool)
        ensures
            r,
    {
        true
    }

    /// Whether the given outward normal faces the incoming ray, and
    /// the normal flipped against the ray if it does not.
    pub fn check_is_front_face(r: &Ray, outward_normal: Vec3) -> (res: (bool, Vec3))
        ensures
            res.0 == front_face_s(*r, outward_normal),
            res.1 == oriented_normal_s(*r, outward_normal),
    {
        let is_front_face = r.dir.dot(outward_normal) < 0;
        if is_front_face {
            (true, outward_normal)
        } else {
            (false, outward_normal.neg())
        }
    }
}

/// The closed set of intersectable shapes: each answers a bounding box
/// and a nearest-hit query over a parameter range.
pub enum Traceable {
    Sphere(Sphere),
    Rectangle(Rectangle),
    BoxPrim(BoxPrim),
    Transform(Transform),
    Volumetric(Volumetric),
    World(World),
    Bvh(BVHNode),
}

/// Whether the outcome of intersecting is a function of the shape and
/// the ray alone.  Nothing that scatters probabilistically qualifies.
pub open spec fn deterministic_s(o: Traceable) -> bool
    decreases o, 0int,
{
    match o {
        Traceable::Sphere(_) => true,
        Traceable::Rectangle(_) => true,
        Traceable::BoxPrim(b) => list_deterministic_s(b.side_planes.objects@),
        Traceable::Transform(tf) => deterministic_s(*tf.object),
        Traceable::Volumetric(_) => false,
        Traceable::World(w) => list_deterministic_s(w.objects@),
        Traceable::Bvh(n) => deterministic_s(*n.child_left) && deterministic_s(*n.child_right),
    }
}

/// Every shape of a list is deterministic.
pub open spec fn list_deterministic_s(objs: Seq<Arc<Traceable>>) -> bool
    decreases objs, 1int,
{
    forall|i: int| 0 <= i < objs.len() ==> deterministic_s(*#[trigger] objs[i])
}

/// The bounding box a shape answers.
pub open spec fn bbox_s(o: Traceable) -> Option<AABB>
    decreases o, 0int,
{
    match o {
        Traceable::Sphere(s) => sphere_bbox_s(s),
        Traceable::Rectangle(rc) => rect_bbox_s(rc),
        Traceable::BoxPrim(b) => Some(AABB { min: b.box_min, max: b.box_max }),
        Traceable::Transform(tf) => tf.aabb,
        Traceable::Volumetric(v) => bbox_s(*v.shape),
        Traceable::World(w) => list_bbox_s(w.objects@),
        Traceable::Bvh(n) => Some(n.aabb),
    }
}

/// Every shape of the first `n` of a list answers a bounding box.
pub open spec fn list_bounded_upto_s(objs: Seq<Arc<Traceable>>, n: int) -> bool
    decreases objs, n + 1,
{
    if n <= 0 || n > objs.len() {
        true
    } else {
        list_bounded_upto_s(objs, n - 1) && bbox_s(*objs[n - 1]) is Some
    }
}

/// The merge of the boxes of the first `n` shapes of a list, folded in
/// scan order.
pub open spec fn list_merged_upto_s(objs: Seq<Arc<Traceable>>, n: int) -> AABB
    decreases objs, n + 1,
{
    if objs.len() == 0 || n < 1 || n > objs.len() {
        AABB { min: Vec3 { x: 0, y: 0, z: 0 }, max: Vec3 { x: 0, y: 0, z: 0 } }
    } else if n == 1 {
        match bbox_s(*objs[0]) {
            Some(b) => b,
            None => AABB { min: Vec3 { x: 0, y: 0, z: 0 }, max: Vec3 { x: 0, y: 0, z: 0 } },
        }
    } else {
        match bbox_s(*objs[n - 1]) {
            Some(b) => merge_s(b, list_merged_upto_s(objs, n - 1)),
            None => AABB { min: Vec3 { x: 0, y: 0, z: 0 }, max: Vec3 { x: 0, y: 0, z: 0 } },
        }
    }
}

/// The box a collection answers: the merge of all its shapes' boxes,
/// absent when the collection is empty or any shape lacks one.
pub open spec fn list_bbox_s(objs: Seq<Arc<Traceable>>) -> Option<AABB>
    decreases objs, objs.len() + 2,
{
    if objs.len() == 0 || !list_bounded_upto_s(objs, objs.len() as int) {
        None
    } else {
        Some(list_merged_upto_s(objs, objs.len() as int))
    }
}

/// `h` is an intersection candidate of the shape for this ray,
/// whatever parameter range is asked about.
pub open spec fn is_cand_s(o: Traceable, r: Ray, h: RayHit) -> bool
    decreases o, 0int,
{
    match o {
        Traceable::Sphere(s) => sphere_is_cand_s(s, r, h),
        Traceable::Rectangle(rc) => rect_is_cand_s(rc, r, h),
        Traceable::BoxPrim(b) => list_is_cand_s(b.side_planes.objects@, r, h),
        Traceable::Transform(tf) => exists|hi: RayHit|
            is_cand_s(*tf.object, inner_ray_s(tf, r), hi) && h == xform_hit_s(tf, hi),
        Traceable::Volumetric(_) => false,
        Traceable::World(w) => list_is_cand_s(w.objects@, r, h),
        Traceable::Bvh(n) => is_cand_s(*n.child_left, r, h) || is_cand_s(*n.child_right, r, h),
    }
}

/// `h` is a candidate of some shape in the list.
pub open spec fn list_is_cand_s(objs: Seq<Arc<Traceable>>, r: Ray, h: RayHit) -> bool
    decreases objs, 1int,
{
    exists|i: int| 0 <= i < objs.len() && is_cand_s(*#[trigger] objs[i], r, h)
}

/// Keep the later of two results: the scan narrows its range to each
/// hit it finds, so a later result is never farther.
pub open spec fn prefer_later_s(first: Option<RayHit>, rest: Option<RayHit>) -> Option<RayHit> {
    match rest {
        Some(h) => Some(h),
        None => first,
    }
}

/// The linear scan from index `i` on: intersect each shape in turn,
/// shrinking the upper bound of the range to the last hit's distance,
/// so the final result is the nearest hit of the whole list.
pub open spec fn scan_hit_s(
    objs: Seq<Arc<Traceable>>,
    r: Ray,
    t_min: int,
    t_max: int,
    i: int,
) -> Option<RayHit>
    decreases objs, objs.len() - i + 1,
{
    if i < 0 || i >= objs.len() {
        None
    } else {
        match hit_spec_s(*objs[i], r, t_min, t_max) {
            None => scan_hit_s(objs, r, t_min, t_max, i + 1),
            Some(h) => prefer_later_s(Some(h), scan_hit_s(objs, r, t_min, h.t as int, i + 1)),
        }
    }
}

/// What intersecting a deterministic shape over `[t_min, t_max]`
/// returns.
pub open spec fn hit_spec_s(o: Traceable, r: Ray, t_min: int, t_max: int) -> Option<RayHit>
    decreases o, 0int,
{
    match o {
        Traceable::Sphere(s) => sphere_hit_spec_s(s, r, t_min, t_max),
        Traceable::Rectangle(rc) => rect_hit_spec_s(rc, r, t_min, t_max),
        Traceable::BoxPrim(b) => scan_hit_s(b.side_planes.objects@, r, t_min, t_max, 0),
        Traceable::Transform(tf) => match hit_spec_s(
            *tf.object,
            inner_ray_s(tf, r),
            t_min,
            t_max,
        ) {
            None => None,
            Some(h) => Some(xform_hit_s(tf, h)),
        },
        Traceable::Volumetric(_) => None,
        Traceable::World(w) => scan_hit_s(w.objects@, r, t_min, t_max, 0),
        Traceable::Bvh(n) => if !slab_hit_s(n.aabb, r, t_min, t_max) {
            None
        } else {
            match hit_spec_s(*n.child_left, r, t_min, t_max) {
                None => hit_spec_s(*n.child_right, r, t_min, t_max),
                Some(lh) => match hit_spec_s(*n.child_right, r, t_min, lh.t as int) {
                    None => Some(lh),
                    Some(rh) => Some(rh),
                },
            }
        },
    }
}

impl Traceable {
    /// The shape's bounding box, absent when it has none.
    pub fn bounding_box(&self) -> (b: Option<AABB>)
        ensures
            b == bbox_s(*self),
        decreases *self, 0int,
    {
        match self {
            Traceable::Sphere(s) => s.bounding_box(),
            Traceable::Rectangle(rc) => rc.bounding_box(),
            Traceable::BoxPrim(b) => b.bounding_box(),
            Traceable::Transform(tf) => tf.bounding_box(),
            Traceable::Volumetric(v) => v.bounding_box(),
            Traceable::World(w) => w.bounding_box(),
            Traceable::Bvh(n) => n.bounding_box(),
        }
    }

    /// The nearest hit within `[t_min, t_max]`, or nothing.  For a
    /// deterministic shape the result is exactly `hit_spec_s`; for any
    /// shape a reported hit lies in range with surface coordinates in
    /// the unit square.
    pub fn check_intersection(
        &self,
        r: &Ray,
        t_min: i64,
        t_max: i64,
        rng: &mut rand::rngs::StdRng,
    ) -> (res: Option<RayHit>)
        ensures
            res matches Some(h) ==> t_min <= h.t <= t_max && hit_uv_wf(h),
            deterministic_s(*self) ==> res == hit_spec_s(*self, *r, t_min as int, t_max as int),
        decreases *self, 0int,
    {
        match self {
            Traceable::Sphere(s) => s.check_intersection(r, t_min, t_max),
            Traceable::Rectangle(rc) => rc.check_intersection(r, t_min, t_max),
            Traceable::BoxPrim(b) => b.check_intersection(r, t_min, t_max, rng),
            Traceable::Transform(tf) => tf.check_intersection(r, t_min, t_max, rng),
            Traceable::Volumetric(v) => v.check_intersection(r, t_min, t_max, rng),
            Traceable::World(w) => w.check_intersection(r, t_min, t_max, rng),
            Traceable::Bvh(n) => n.check_intersection(r, t_min, t_max, rng),
        }
    }
}

} // verus!
