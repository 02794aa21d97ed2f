//! Space transforms: a rotation and a translation wrap another shape.
//!
//! The ray is converted from outer to object space, the wrapped shape
//! is intersected there, and the hit is converted back: the point by
//! the inverse map, the normal by the rotation's inverse, which for a
//! pure rotation is its transpose.  Hit distances pass through
//! unchanged, so the direction is never renormalized.  Only rotation
//! plus translation is supported; scale or shear would need the true
//! inverse transpose for normals.

use vstd::prelude::*;

use std::sync::Arc;

use crate::aabb::{cloud_max_s, cloud_min_s, AABB};
use crate::ray::Ray;
use crate::traceable::{bbox_s, hit_uv_wf, RayHit, Traceable};
use crate::vec3::{dot_s, unit_s, v_add_s, v_sub_s, Vec3};

verus! {

/// A 3 by 3 matrix, stored by rows.
#[derive(Clone, Copy, Debug, PartialEq, Eq, Structural)]
pub struct Mat3 {
    pub r0: Vec3,
    pub r1: Vec3,
    pub r2: Vec3,
}

/// Matrix times vector: one dot product per row.
pub open spec fn mat3_mul_vec_s(m: Mat3, v: Vec3) -> Vec3 {
    Vec3 { x: dot_s(m.r0, v) as i64, y: dot_s(m.r1, v) as i64, z: dot_s(m.r2, v) as i64 }
}

/// The transpose: rows become columns.
pub open spec fn mat3_transpose_s(m: Mat3) -> Mat3 {
    Mat3 {
        r0: Vec3 { x: m.r0.x, y: m.r1.x, z: m.r2.x },
        r1: Vec3 { x: m.r0.y, y: m.r1.y, z: m.r2.y },
        r2: Vec3 { x: m.r0.z, y: m.r1.z, z: m.r2.z },
    }
}

/// Rotation by a quarter turn around the x axis, exact in fixed
/// point.
pub open spec fn rot_x_quarter_s() -> Mat3 {
    Mat3 {
        r0: Vec3 { x: 65536, y: 0, z: 0 },
        r1: Vec3 { x: 0, y: 0, z: (-65536int) as i64 },
        r2: Vec3 { x: 0, y: 65536, z: 0 },
    }
}

/// Rotation by a negative quarter turn around the x axis.
pub open spec fn rot_x_neg_quarter_s() -> Mat3 {
    Mat3 {
        r0: Vec3 { x: 65536, y: 0, z: 0 },
        r1: Vec3 { x: 0, y: 0, z: 65536 },
        r2: Vec3 { x: 0, y: (-65536int) as i64, z: 0 },
    }
}

/// Rotation by a quarter turn around the y axis.
pub open spec fn rot_y_quarter_s() -> Mat3 {
    Mat3 {
        r0: Vec3 { x: 0, y: 0, z: 65536 },
        r1: Vec3 { x: 0, y: 65536, z: 0 },
        r2: Vec3 { x: (-65536int) as i64, y: 0, z: 0 },
    }
}

/// Rotation by a negative quarter turn around the y axis.
pub open spec fn rot_y_neg_quarter_s() -> Mat3 {
    Mat3 {
        r0: Vec3 { x: 0, y: 0, z: (-65536int) as i64 },
        r1: Vec3 { x: 0, y: 65536, z: 0 },
        r2: Vec3 { x: 65536, y: 0, z: 0 },
    }
}

impl Mat3 {
    /// Build a matrix from three rows.
    pub fn from_rows(r0: Vec3, r1: Vec3, r2: Vec3) -> (m: Mat3)
        ensures
            m == (Mat3 { r0, r1, r2 }),
    {
        Mat3 { r0, r1, r2 }
    }

    /// The identity matrix.
    pub fn identity() -> (m: Mat3)
        ensures
            m == (Mat3 {
                r0: Vec3 { x: 65536, y: 0, z: 0 },
                r1: Vec3 { x: 0, y: 65536, z: 0 },
                r2: Vec3 { x: 0, y: 0, z: 65536 },
            }),
    {
        Mat3 {
            r0: Vec3 { x: 65536, y: 0, z: 0 },
            r1: Vec3 { x: 0, y: 65536, z: 0 },
            r2: Vec3 { x: 0, y: 0, z: 65536 },
        }
    }

    /// Rotation by a quarter turn around the x axis, exact in fixed
    /// point.
    pub fn rotation_x_quarter() -> (m: Mat3)
        ensures
            m == rot_x_quarter_s(),
    {
        Mat3 {
            r0: Vec3 { x: 65536, y: 0, z: 0 },
            r1: Vec3 { x: 0, y: 0, z: -65536 },
            r2: Vec3 { x: 0, y: 65536, z: 0 },
        }
    }

    /// Rotation by a negative quarter turn around the x axis.
    pub fn rotation_x_neg_quarter() -> (m: Mat3)
        ensures
            m == rot_x_neg_quarter_s(),
    {
        Mat3 {
            r0: Vec3 { x: 65536, y: 0, z: 0 },
            r1: Vec3 { x: 0, y: 0, z: 65536 },
            r2: Vec3 { x: 0, y: -65536, z: 0 },
        }
    }

    /// Rotation by a quarter turn around the y axis.
    pub fn rotation_y_quarter() -> (m: Mat3)
        ensures
            m == rot_y_quarter_s(),
    {
        Mat3 {
            r0: Vec3 { x: 0, y: 0, z: 65536 },
            r1: Vec3 { x: 0, y: 65536, z: 0 },
            r2: Vec3 { x: -65536, y: 0, z: 0 },
        }
    }

    /// Rotation by a negative quarter turn around the y axis.
    pub fn rotation_y_neg_quarter() -> (m: Mat3)
        ensures
            m == rot_y_neg_quarter_s(),
    {
        Mat3 {
            r0: Vec3 { x: 0, y: 0, z: -65536 },
            r1: Vec3 { x: 0, y: 65536, z: 0 },
            r2: Vec3 { x: 65536, y: 0, z: 0 },
        }
    }

    /// Apply the matrix to a vector.
    pub fn mul_vec(&self, v: Vec3) -> (r: Vec3)
        ensures
            r == mat3_mul_vec_s(*self, v),
    {
        Vec3 { x: self.r0.dot(v), y: self.r1.dot(v), z: self.r2.dot(v) }
    }

    /// The transpose, which inverts a pure rotation.
    pub fn transpose(&self) -> (r: Mat3)
        ensures
            r == mat3_transpose_s(*self),
    {
        Mat3 {
            r0: Vec3 { x: self.r0.x, y: self.r1.x, z: self.r2.x },
            r1: Vec3 { x: self.r0.y, y: self.r1.y, z: self.r2.y },
            r2: Vec3 { x: self.r0.z, y: self.r1.z, z: self.r2.z },
        }
    }
}

/// One corner of the wrapped shape's box, re-expressed in outer
/// space: the inverse rotation applied, then the translation removed.
pub open spec fn outer_corner_s(rot_inv: Mat3, translation: Vec3, c: Vec3) -> Vec3 {
    v_sub_s(mat3_mul_vec_s(rot_inv, c), translation)
}

/// The eight corners of a box mapped into outer space, in the order
/// the box lists its corners.
pub open spec fn outer_corners_s(rot_inv: Mat3, translation: Vec3, bb: AABB) -> Seq<Vec3> {
    seq![
        outer_corner_s(rot_inv, translation, Vec3 { x: bb.min.x, y: bb.min.y, z: bb.min.z }),
        outer_corner_s(rot_inv, translation, Vec3 { x: bb.min.x, y: bb.min.y, z: bb.max.z }),
        outer_corner_s(rot_inv, translation, Vec3 { x: bb.min.x, y: bb.max.y, z: bb.min.z }),
        outer_corner_s(rot_inv, translation, Vec3 { x: bb.min.x, y: bb.max.y, z: bb.max.z }),
        outer_corner_s(rot_inv, translation, Vec3 { x: bb.max.x, y: bb.max.y, z: bb.min.z }),
        outer_corner_s(rot_inv, translation, Vec3 { x: bb.max.x, y: bb.max.y, z: bb.max.z }),
        outer_corner_s(rot_inv, translation, Vec3 { x: bb.max.x, y: bb.min.y, z: bb.min.z }),
        outer_corner_s(rot_inv, translation, Vec3 { x: bb.max.x, y: bb.min.y, z: bb.max.z }),
    ]
}

/// The axis-aligned refit of a box mapped into outer space: the
/// tightest box around its eight mapped corners, which contains the
/// rotated box where merely mapping min and max would not.
pub open spec fn transformed_bbox_s(rot_inv: Mat3, translation: Vec3, bb: AABB) -> AABB {
    AABB {
        min: cloud_min_s(outer_corners_s(rot_inv, translation, bb), 8),
        max: cloud_max_s(outer_corners_s(rot_inv, translation, bb), 8),
    }
}

/// A rotation-and-translation wrapper around a shape, with the inverse
/// rotation and the outer-space bounding box cached at construction.
pub struct Transform {
    pub rot: Mat3,
    pub rot_inv: Mat3,
    pub translation: Vec3,
    pub object: Arc<Traceable>,
    pub aabb: Option<AABB>,
}

/// The ray expressed in the wrapped shape's object space: the origin
/// is translated then rotated, the direction only rotated, and neither
/// is renormalized, so distances along the ray keep their meaning.
pub open spec fn inner_ray_s(tf: Transform, r: Ray) -> Ray {
    Ray {
        origin: mat3_mul_vec_s(tf.rot, v_add_s(r.origin, tf.translation)),
        dir: mat3_mul_vec_s(tf.rot, r.dir),
    }
}

/// An object-space hit re-expressed in outer space: the point by the
/// inverse map, the normal by the inverse rotation renormalized, the
/// distance and everything else unchanged.
pub open spec fn xform_hit_s(tf: Transform, h: RayHit) -> RayHit {
    RayHit {
        p: v_sub_s(mat3_mul_vec_s(tf.rot_inv, h.p), tf.translation),
        normal: unit_s(mat3_mul_vec_s(tf.rot_inv, h.normal)),
        t: h.t,
        u: h.u,
        v: h.v,
        front_face: h.front_face,
        material: h.material,
    }
}

impl Transform {
    /// Wrap a shape with a rotation and a translation.  The inverse
    /// rotation is the transpose, and the outer-space bounding box is
    /// computed once from the wrapped shape's corner points.
    pub fn from_transform_rot(mat3: Mat3, translation: Vec3, object: Arc<Traceable>) -> (tf:
        Transform)
        ensures
            tf.rot == mat3,
            tf.rot_inv == mat3_transpose_s(mat3),
            tf.translation == translation,
            tf.object == object,
            tf.aabb == (match bbox_s(*object) {
                None => None::<AABB>,
                Some(bb) => Some(transformed_bbox_s(mat3_transpose_s(mat3), translation, bb)),
            }),
    {
        let rot_inv = mat3.transpose();
        let aabb = Transform::calc_bounding_box(&rot_inv, translation, &object);
        Transform { rot: mat3, rot_inv, translation, object, aabb }
    }

    /// The outer-space box around the wrapped shape: its own box's
    /// eight corners are mapped into outer space and refit, since a
    /// rotated box is no longer axis-aligned.
    fn calc_bounding_box(rot_inv: &Mat3, translation: Vec3, object: &Arc<Traceable>) -> (b: Option<
        AABB,
    >)
        ensures
            b == (match bbox_s(**object) {
                None => None::<AABB>,
                Some(bb) => Some(transformed_bbox_s(*rot_inv, translation, bb)),
            }),
    {
        let obj_bb = object.bounding_box();
        match obj_bb {
            None => None,
            Some(bb) => {
                let points = bb.to_points();
                let ghost outer = outer_corners_s(*rot_inv, translation, bb);
                let mut mapped: Vec<Vec3> = Vec::new();
                let mut i: usize = 0;
                while i < 8
                    invariant
                        i <= 8,
                        mapped@.len() == i,
                        points@.len() == 8,
                        outer == outer_corners_s(*rot_inv, translation, bb),
                        forall|k: int|
                            0 <= k < 8 ==> #[trigger] outer[k] == outer_corner_s(
                                *rot_inv,
                                translation,
                                points@[k],
                            ),
                        forall|k: int| 0 <= k < i ==> #[trigger] mapped@[k] == outer[k],
                    decreases 8 - i,
                {
                    mapped.push(rot_inv.mul_vec(points[i]).sub(translation));
                    i = i + 1;
                }
                proof {
                    assert(mapped@ =~= outer);
                }
                Some(AABB::from_point_cloud(mapped.as_slice()))
            },
        }
    }

    /// The cached outer-space bounding box.
    pub fn bounding_box(&self) -> (b: Option<AABB>)
        ensures
            b == self.aabb,
    {
        self.aabb
    }

    /// Convert the ray to object space, intersect the wrapped shape,
    /// and re-express any hit in outer space.
    pub fn check_intersection(
        &self,
        r: &Ray,
        t_min: i64,
        t_max: i64,
        rng: &mut rand::rngs::StdRng,
    ) -> (res: Option<RayHit>)
        ensures
            res matches Some(h) ==> t_min <= h.t <= t_max && hit_uv_wf(h),
            crate::traceable::deterministic_s(*self.object) ==> res == (match crate::traceable::hit_spec_s(
                *self.object,
                inner_ray_s(*self, *r),
                t_min as int,
                t_max as int,
            ) {
                None => None,
                Some(h) => Some(xform_hit_s(*self, h)),
            }),
        decreases *self.object, 2int,
    {
        let offseted_ray = Ray {
            origin: self.rot.mul_vec(r.origin.add(self.translation)),
            dir: self.rot.mul_vec(r.dir),
        };

        let result = self.object.check_intersection(&offseted_ray, t_min, t_max, rng);
        match result {
            None => None,
            Some(hit) => {
                let p = self.rot_inv.mul_vec(hit.p).sub(self.translation);
                let normal = self.rot_inv.mul_vec(hit.normal).unit_vector();
                Some(
                    RayHit {
                        p,
                        normal,
                        t: hit.t,
                        u: hit.u,
                        v: hit.v,
                        front_face: hit.front_face,
                        material: hit.material,
                    },
                )
            },
        }
    }
}

} // verus!
