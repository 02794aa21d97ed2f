//! A box: six rectangles rotated into position and collected in a
//! child world; intersection delegates to that collection, while the
//! bounding box is the box's own corners.

use vstd::prelude::*;

use std::sync::Arc;

use crate::aabb::AABB;
use crate::material::Material;
use crate::qmath::{abs_qs, add_qs, div_qs, max_s, min_s, neg_qs, q_abs, q_add, q_div, TWO};
use crate::ray::Ray;
use crate::rectangle::Rectangle;
use crate::traceable::{
    deterministic_s, hit_uv_wf, list_deterministic_s, RayHit, Traceable,
};
use crate::transform::{
    mat3_transpose_s, rot_x_neg_quarter_s, rot_x_quarter_s, rot_y_neg_quarter_s, rot_y_quarter_s,
    Mat3, Transform,
};
use crate::vec3::{v_div_scalar_s, Point3d, Vec3};
use crate::world::World;

verus! {

/// The offset of a pair of opposite faces: half the sum of the
/// absolute corner coordinates on the face's thin axis.
pub open spec fn face_offset_s(lo: int, hi: int) -> int {
    div_qs(add_qs(abs_qs(lo), abs_qs(hi)), 131072)
}

/// The rectangle a face is cut from: ordered bounds over two corner
/// coordinates per axis, the offset along the third, and the box's
/// material.
pub open spec fn face_rect_s(
    a0: int,
    b0: int,
    a1: int,
    b1: int,
    k: int,
    mat: Arc<Material>,
    rc: Rectangle,
) -> bool {
    &&& rc.x0 as int == min_s(a0, a1)
    &&& rc.y0 as int == min_s(b0, b1)
    &&& rc.x1 as int == max_s(a0, a1)
    &&& rc.y1 as int == max_s(b0, b1)
    &&& rc.k as int == k
    &&& rc.material == mat
}

/// A face realized as a quarter-turn transform of a rectangle, with
/// no translation.
pub open spec fn turned_face_s(
    o: Traceable,
    rot: Mat3,
    a0: int,
    b0: int,
    a1: int,
    b1: int,
    k: int,
    mat: Arc<Material>,
) -> bool {
    &&& o matches Traceable::Transform(tf)
    &&& tf.rot == rot
    &&& tf.rot_inv == mat3_transpose_s(rot)
    &&& tf.translation == (Vec3 { x: 0, y: 0, z: 0 })
    &&& (*tf.object matches Traceable::Rectangle(rc) && face_rect_s(a0, b0, a1, b1, k, mat, rc))
}

/// The six faces of an origin-centered box of the given dimensions:
/// top and bottom by quarter turns around x, left and right by quarter
/// turns around y, front and back as plain rectangles.
pub open spec fn box_faces_s(dim: Vec3, mat: Arc<Material>, objs: Seq<Arc<Traceable>>) -> bool {
    let p0 = v_div_scalar_s(dim, -131072);
    let p1 = v_div_scalar_s(dim, 131072);
    let hy = face_offset_s(p0.y as int, p1.y as int);
    let hx = face_offset_s(p0.x as int, p1.x as int);
    let hz = face_offset_s(p0.z as int, p1.z as int);
    &&& objs.len() == 6
    &&& turned_face_s(
        *objs[0],
        rot_x_quarter_s(),
        p0.x as int,
        p0.z as int,
        p1.x as int,
        p1.z as int,
        hy,
        mat,
    )
    &&& turned_face_s(
        *objs[1],
        rot_x_neg_quarter_s(),
        p0.x as int,
        p0.z as int,
        p1.x as int,
        p1.z as int,
        hy,
        mat,
    )
    &&& turned_face_s(
        *objs[2],
        rot_y_quarter_s(),
        p0.z as int,
        p0.y as int,
        p1.z as int,
        p1.y as int,
        hx,
        mat,
    )
    &&& turned_face_s(
        *objs[3],
        rot_y_neg_quarter_s(),
        p0.z as int,
        p0.y as int,
        p1.z as int,
        p1.y as int,
        hx,
        mat,
    )
    &&& (*objs[4] matches Traceable::Rectangle(rc) && face_rect_s(
        p0.x as int,
        p0.y as int,
        p1.x as int,
        p1.y as int,
        hz,
        mat,
        rc,
    ))
    &&& (*objs[5] matches Traceable::Rectangle(rc) && face_rect_s(
        p0.x as int,
        p0.y as int,
        p1.x as int,
        p1.y as int,
        neg_qs(hz),
        mat,
        rc,
    ))
}

/// An axis-aligned box of the given dimensions, centered at the
/// origin, realized as six rectangles.
pub struct BoxPrim {
    pub box_min: Point3d,
    pub box_max: Point3d,
    pub side_planes: Arc<World>,
}

impl BoxPrim {
    /// Build the six faces: top and bottom by quarter turns around x,
    /// left and right by quarter turns around y, front and back as
    /// plain rectangles.
    #[verifier::rlimit(100)]
    pub fn new(dim: Vec3, mat: Arc<Material>) -> (b: BoxPrim)
        ensures
            b.box_min == v_div_scalar_s(dim, -131072),
            b.box_max == v_div_scalar_s(dim, 131072),
            box_faces_s(dim, mat, b.side_planes.objects@),
            list_deterministic_s(b.side_planes.objects@),
    {
        let p0 = dim.div(-TWO);
        let p1 = dim.div(TWO);

        let mut sides = World::new();
        let ghost mut prev = sides.objects@;
        proof {
            assert(list_deterministic_s(sides.objects@));
        }

        // top, bottom
        let h = q_div(q_add(q_abs(p0.y), q_abs(p1.y)), TWO);
        let rect = Arc::new(
            Traceable::Rectangle(Rectangle::new((p0.x, p0.z), (p1.x, p1.z), h, mat.clone())),
        );
        let f0 = Arc::new(
            Traceable::Transform(
                Transform::from_transform_rot(
                    Mat3::rotation_x_quarter(),
                    Vec3::zero(),
                    rect.clone(),
                ),
            ),
        );
        proof { prev = sides.objects@; }
        sides.add(f0);
        proof {
            reveal_with_fuel(deterministic_s, 4);
            assert(deterministic_s(*sides.objects@.last()));
            lemma_det_push(prev, sides.objects@.last());
        }
        let f1 = Arc::new(
            Traceable::Transform(
                Transform::from_transform_rot(
                    Mat3::rotation_x_neg_quarter(),
                    Vec3::zero(),
                    rect.clone(),
                ),
            ),
        );
        proof { prev = sides.objects@; }
        sides.add(f1);
        proof {
            reveal_with_fuel(deterministic_s, 4);
            assert(deterministic_s(*sides.objects@.last()));
            lemma_det_push(prev, sides.objects@.last());
        }

        // left, right
        let h = q_div(q_add(q_abs(p0.x), q_abs(p1.x)), TWO);
        let rect = Arc::new(
            Traceable::Rectangle(Rectangle::new((p0.z, p0.y), (p1.z, p1.y), h, mat.clone())),
        );
        let f2 = Arc::new(
            Traceable::Transform(
                Transform::from_transform_rot(
                    Mat3::rotation_y_quarter(),
                    Vec3::zero(),
                    rect.clone(),
                ),
            ),
        );
        proof { prev = sides.objects@; }
        sides.add(f2);
        proof {
            reveal_with_fuel(deterministic_s, 4);
            assert(deterministic_s(*sides.objects@.last()));
            lemma_det_push(prev, sides.objects@.last());
        }
        let f3 = Arc::new(
            Traceable::Transform(
                Transform::from_transform_rot(
                    Mat3::rotation_y_neg_quarter(),
                    Vec3::zero(),
                    rect.clone(),
                ),
            ),
        );
        proof { prev = sides.objects@; }
        sides.add(f3);
        proof {
            reveal_with_fuel(deterministic_s, 4);
            assert(deterministic_s(*sides.objects@.last()));
            lemma_det_push(prev, sides.objects@.last());
        }

        // front, back
        let h = q_div(q_add(q_abs(p0.z), q_abs(p1.z)), TWO);
        let f4 = Arc::new(
            Traceable::Rectangle(Rectangle::new((p0.x, p0.y), (p1.x, p1.y), h, mat.clone())),
        );
        proof { prev = sides.objects@; }
        sides.add(f4);
        proof {
            reveal_with_fuel(deterministic_s, 4);
            assert(deterministic_s(*sides.objects@.last()));
            lemma_det_push(prev, sides.objects@.last());
        }
        let neg_h = crate::qmath::q_neg(h);
        let f5 = Arc::new(
            Traceable::Rectangle(
                Rectangle::new((p0.x, p0.y), (p1.x, p1.y), neg_h, mat.clone()),
            ),
        );
        proof { prev = sides.objects@; }
        sides.add(f5);
        proof {
            reveal_with_fuel(deterministic_s, 4);
            assert(deterministic_s(*sides.objects@.last()));
            lemma_det_push(prev, sides.objects@.last());
        }

        BoxPrim { box_min: p0, box_max: p1, side_planes: Arc::new(sides) }
    }

    /// The box's extent along each axis.
    pub fn dims(&self) -> (d: Vec3)
        ensures
            d == crate::vec3::v_sub_s(self.box_max, self.box_min),
    {
        self.box_max.sub(self.box_min)
    }

    /// The box's own corners, not derived from the faces, to avoid
    /// compounding transform error.
    pub fn bounding_box(&self) -> (b: Option<AABB>)
        ensures
            b == Some(AABB { min: self.box_min, max: self.box_max }),
    {
        Some(AABB { min: self.box_min, max: self.box_max })
    }

    /// Delegate to the child collection of faces.
    pub fn check_intersection(
        &self,
        r: &Ray,
        t_min: i64,
        t_max: i64,
        rng: &mut rand::rngs::StdRng,
    ) -> (res: Option<RayHit>)
        ensures
            res matches Some(h) ==> t_min <= h.t <= t_max && hit_uv_wf(h),
            list_deterministic_s(self.side_planes.objects@) ==> res
                == crate::traceable::scan_hit_s(
                self.side_planes.objects@,
                *r,
                t_min as int,
                t_max as int,
                0,
            ),
        decreases *self.side_planes, 4int,
    {
        self.side_planes.check_intersection(r, t_min, t_max, rng)
    }
}

/// A deterministic shape appended to an all-deterministic list keeps
/// the list all-deterministic.
proof fn lemma_det_push(objs: Seq<Arc<Traceable>>, o: Arc<Traceable>)
    requires
        list_deterministic_s(objs),
        deterministic_s(*o),
    ensures
        list_deterministic_s(objs.push(o)),
{
    let pushed = objs.push(o);
    assert forall|i: int| 0 <= i < pushed.len() implies deterministic_s(
        *#[trigger] pushed[i],
    ) by {
        if i < objs.len() {
            assert(pushed[i] == objs[i]);
        } else {
            assert(pushed[i] == o);
        }
    }
}

} // verus!
