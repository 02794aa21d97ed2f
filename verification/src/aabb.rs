//! Axis-aligned bounding boxes: merge, construction from a point
//! cloud, and the slab ray-intersection test.

use vstd::prelude::*;

use crate::qmath::{
    div_qs, lemma_div_qs_sign, lemma_mul_qs_monotone, max_s, min_s, mul_qs, q_div, q_max, q_min,
    q_mul, q_sub, sub_qs, ONE,
};
use crate::ray::Ray;
use crate::vec3::{axis_of, Vec3};

verus! {

/// Half the extent of the huge debugging box, in whole units.
pub const GINORMOUS_EXTENT: i64 = 999999999 * 65536;

/// An axis-aligned box between two corner points.
#[derive(Clone, Copy, Debug, PartialEq, Eq, Structural)]
pub struct AABB {
    pub min: Vec3,
    pub max: Vec3,
}

/// Componentwise minimum of two points.
pub open spec fn point_min_s(p0: Vec3, p1: Vec3) -> Vec3 {
    Vec3 {
        x: min_s(p0.x as int, p1.x as int) as i64,
        y: min_s(p0.y as int, p1.y as int) as i64,
        z: min_s(p0.z as int, p1.z as int) as i64,
    }
}

/// Componentwise maximum of two points.
pub open spec fn point_max_s(p0: Vec3, p1: Vec3) -> Vec3 {
    Vec3 {
        x: max_s(p0.x as int, p1.x as int) as i64,
        y: max_s(p0.y as int, p1.y as int) as i64,
        z: max_s(p0.z as int, p1.z as int) as i64,
    }
}

/// The merge of two boxes: the smallest box holding both.
pub open spec fn merge_s(b0: AABB, b1: AABB) -> AABB {
    AABB { min: point_min_s(b0.min, b1.min), max: point_max_s(b0.max, b1.max) }
}

/// The first box contains the second, componentwise.
pub open spec fn aabb_contains_s(outer: AABB, inner: AABB) -> bool {
    &&& outer.min.x <= inner.min.x
    &&& outer.min.y <= inner.min.y
    &&& outer.min.z <= inner.min.z
    &&& inner.max.x <= outer.max.x
    &&& inner.max.y <= outer.max.y
    &&& inner.max.z <= outer.max.z
}

/// The componentwise minimum of the first `n` points, folded in scan
/// order.
pub open spec fn cloud_min_s(points: Seq<Vec3>, n: int) -> Vec3
    decreases n,
{
    if n <= 1 {
        points[0]
    } else {
        point_min_s(cloud_min_s(points, n - 1), points[n - 1])
    }
}

/// The componentwise maximum of the first `n` points, folded in scan
/// order.
pub open spec fn cloud_max_s(points: Seq<Vec3>, n: int) -> Vec3
    decreases n,
{
    if n <= 1 {
        points[0]
    } else {
        point_max_s(cloud_max_s(points, n - 1), points[n - 1])
    }
}

/// Where the ray crosses the low plane of the given axis, through the
/// reciprocal of the direction component, as the executable code
/// computes it.  A zero direction component saturates the reciprocal,
/// standing in for an infinite crossing distance.
pub open spec fn cross_lo_s(b: AABB, r: Ray, i: int) -> int {
    mul_qs(sub_qs(axis_of(b.min, i), axis_of(r.origin, i)), div_qs(65536, axis_of(r.dir, i)))
}

/// Where the ray crosses the high plane of the given axis.
pub open spec fn cross_hi_s(b: AABB, r: Ray, i: int) -> int {
    mul_qs(sub_qs(axis_of(b.max, i), axis_of(r.origin, i)), div_qs(65536, axis_of(r.dir, i)))
}

/// The parameter at which the ray enters the slab of the given axis.
pub open spec fn entry_s(b: AABB, r: Ray, i: int) -> int {
    if axis_of(r.dir, i) < 0 {
        cross_hi_s(b, r, i)
    } else {
        cross_lo_s(b, r, i)
    }
}

/// The parameter at which the ray leaves the slab of the given axis.
pub open spec fn exit_s(b: AABB, r: Ray, i: int) -> int {
    if axis_of(r.dir, i) < 0 {
        cross_lo_s(b, r, i)
    } else {
        cross_hi_s(b, r, i)
    }
}

/// The latest entry over the first `n` axes, folded onto `t_min`.
pub open spec fn entry_upto_s(b: AABB, r: Ray, t_min: int, n: int) -> int
    decreases n,
{
    if n <= 0 {
        t_min
    } else {
        max_s(entry_upto_s(b, r, t_min, n - 1), entry_s(b, r, n - 1))
    }
}

/// The earliest exit over the first `n` axes, folded onto `t_max`.
pub open spec fn exit_upto_s(b: AABB, r: Ray, t_max: int, n: int) -> int
    decreases n,
{
    if n <= 0 {
        t_max
    } else {
        min_s(exit_upto_s(b, r, t_max, n - 1), exit_s(b, r, n - 1))
    }
}

/// The slab test: the ray meets the box within `[t_min, t_max]` when
/// the intersection of the three per-axis parameter intervals with
/// `[t_min, t_max]` is nonempty.
pub open spec fn slab_hit_s(b: AABB, r: Ray, t_min: int, t_max: int) -> bool {
    exit_upto_s(b, r, t_max, 3) > entry_upto_s(b, r, t_min, 3)
}

/// Folding one more axis can only tighten the running interval.
proof fn lemma_fold_tightens(b: AABB, r: Ray, t_min: int, t_max: int, m: int, n: int)
    requires
        0 <= m <= n,
    ensures
        entry_upto_s(b, r, t_min, m) <= entry_upto_s(b, r, t_min, n),
        exit_upto_s(b, r, t_max, m) >= exit_upto_s(b, r, t_max, n),
    decreases n,
{
    if m < n {
        lemma_fold_tightens(b, r, t_min, t_max, m, n - 1);
    }
}

/// The slab test folded in an arbitrary axis order.
pub open spec fn slab_hit_ordered_s(
    b: AABB,
    r: Ray,
    t_min: int,
    t_max: int,
    i: int,
    j: int,
    k: int,
) -> bool {
    min_s(min_s(min_s(t_max, exit_s(b, r, i)), exit_s(b, r, j)), exit_s(b, r, k)) > max_s(
        max_s(max_s(t_min, entry_s(b, r, i)), entry_s(b, r, j)),
        entry_s(b, r, k),
    )
}

impl AABB {
    /// The smallest box holding both arguments.
    pub fn merge(box0: &AABB, box1: &AABB) -> (r: AABB)
        ensures
            r == merge_s(*box0, *box1),
    {
        AABB {
            min: Vec3 {
                x: q_min(box0.min.x, box1.min.x),
                y: q_min(box0.min.y, box1.min.y),
                z: q_min(box0.min.z, box1.min.z),
            },
            max: Vec3 {
                x: q_max(box0.max.x, box1.max.x),
                y: q_max(box0.max.y, box1.max.y),
                z: q_max(box0.max.z, box1.max.z),
            },
        }
    }

    /// A huge box, for skipping the spatial index while debugging.
    pub fn ginormous() -> (r: AABB)
        ensures
            r.min == (Vec3 {
                x: -GINORMOUS_EXTENT as i64,
                y: -GINORMOUS_EXTENT as i64,
                z: -GINORMOUS_EXTENT as i64,
            }),
            r.max == (Vec3 {
                x: GINORMOUS_EXTENT as i64,
                y: GINORMOUS_EXTENT as i64,
                z: GINORMOUS_EXTENT as i64,
            }),
    {
        AABB {
            min: Vec3 { x: -GINORMOUS_EXTENT, y: -GINORMOUS_EXTENT, z: -GINORMOUS_EXTENT },
            max: Vec3 { x: GINORMOUS_EXTENT, y: GINORMOUS_EXTENT, z: GINORMOUS_EXTENT },
        }
    }

    /// The tightest box around a nonempty point cloud: the exact
    /// componentwise minimum and maximum, each attained by some point
    /// on every axis.
    pub fn from_point_cloud(points: &[Vec3]) -> (r: AABB)
        requires
            points@.len() >= 1,
        ensures
            r.min == cloud_min_s(points@, points@.len() as int),
            r.max == cloud_max_s(points@, points@.len() as int),
            forall|i: int|
                0 <= i < points@.len() ==> r.min.x <= #[trigger] points@[i].x <= r.max.x
                    && r.min.y <= points@[i].y <= r.max.y && r.min.z <= points@[i].z <= r.max.z,
            exists|i: int| 0 <= i < points@.len() && r.min.x == #[trigger] points@[i].x,
            exists|i: int| 0 <= i < points@.len() && r.max.x == #[trigger] points@[i].x,
            exists|i: int| 0 <= i < points@.len() && r.min.y == #[trigger] points@[i].y,
            exists|i: int| 0 <= i < points@.len() && r.max.y == #[trigger] points@[i].y,
            exists|i: int| 0 <= i < points@.len() && r.min.z == #[trigger] points@[i].z,
            exists|i: int| 0 <= i < points@.len() && r.max.z == #[trigger] points@[i].z,
            r.min.x <= r.max.x && r.min.y <= r.max.y && r.min.z <= r.max.z,
    {
        let mut mn = points[0];
        let mut mx = points[0];
        let mut idx: usize = 1;
        while idx < points.len()
            invariant
                1 <= idx <= points@.len(),
                mn == cloud_min_s(points@, idx as int),
                mx == cloud_max_s(points@, idx as int),
                forall|i: int|
                    0 <= i < idx ==> mn.x <= #[trigger] points@[i].x <= mx.x && mn.y
                        <= points@[i].y <= mx.y && mn.z <= points@[i].z <= mx.z,
                exists|i: int| 0 <= i < idx && mn.x == #[trigger] points@[i].x,
                exists|i: int| 0 <= i < idx && mx.x == #[trigger] points@[i].x,
                exists|i: int| 0 <= i < idx && mn.y == #[trigger] points@[i].y,
                exists|i: int| 0 <= i < idx && mx.y == #[trigger] points@[i].y,
                exists|i: int| 0 <= i < idx && mn.z == #[trigger] points@[i].z,
                exists|i: int| 0 <= i < idx && mx.z == #[trigger] points@[i].z,
                mn.x <= mx.x && mn.y <= mx.y && mn.z <= mx.z,
            decreases points@.len() - idx,
        {
            let p = points[idx];
            let ghost prev_mn = mn;
            let ghost prev_mx = mx;
            mn = Vec3 { x: q_min(mn.x, p.x), y: q_min(mn.y, p.y), z: q_min(mn.z, p.z) };
            mx = Vec3 { x: q_max(mx.x, p.x), y: q_max(mx.y, p.y), z: q_max(mx.z, p.z) };
            proof {
                assert forall|i: int| 0 <= i < idx as int + 1 implies (mn.x
                    <= #[trigger] points@[i].x <= mx.x && mn.y <= points@[i].y <= mx.y && mn.z
                    <= points@[i].z <= mx.z) by {
                    if i < idx as int {
                        assert(prev_mn.x <= points@[i].x <= prev_mx.x);
                    }
                }
            }
            idx = idx + 1;
        }
        AABB { min: mn, max: mx }
    }

    /// The slab test: narrow the running parameter interval by each
    /// axis in turn, reporting a miss as soon as it becomes empty.
    pub fn check_intersection(&self, r: &Ray, t_min_: i64, t_max_: i64) -> (hit: bool)
        ensures
            hit == slab_hit_s(*self, *r, t_min_ as int, t_max_ as int),
    {
        let mut t_min = t_min_;
        let mut t_max = t_max_;
        let mut axis_idx: usize = 0;

        while axis_idx < 3
            invariant
                axis_idx <= 3,
                t_min as int == entry_upto_s(*self, *r, t_min_ as int, axis_idx as int),
                t_max as int == exit_upto_s(*self, *r, t_max_ as int, axis_idx as int),
                axis_idx > 0 ==> t_max > t_min,
            decreases 3 - axis_idx,
        {
            let inv_b = q_div(ONE, r.dir.axis(axis_idx));
            let mut t0 = q_mul(q_sub(self.min.axis(axis_idx), r.origin.axis(axis_idx)), inv_b);
            let mut t1 = q_mul(q_sub(self.max.axis(axis_idx), r.origin.axis(axis_idx)), inv_b);
            if r.dir.axis(axis_idx) < 0 {
                let tmp = t0;
                t0 = t1;
                t1 = tmp;
            }

            t_min = q_max(t0, t_min);
            t_max = q_min(t1, t_max);
            axis_idx = axis_idx + 1;
            if t_max <= t_min {
                proof {
                    lemma_fold_tightens(
                        *self,
                        *r,
                        t_min_ as int,
                        t_max_ as int,
                        axis_idx as int,
                        3,
                    );
                }
                return false;
            }
        }

        true
    }

    /// The eight corner points of the box, in a fixed order.
    pub fn to_points(&self) -> (pts: [Vec3; 8])
        ensures
            pts@.len() == 8,
            pts@[0] == (Vec3 { x: self.min.x, y: self.min.y, z: self.min.z }),
            pts@[1] == (Vec3 { x: self.min.x, y: self.min.y, z: self.max.z }),
            pts@[2] == (Vec3 { x: self.min.x, y: self.max.y, z: self.min.z }),
            pts@[3] == (Vec3 { x: self.min.x, y: self.max.y, z: self.max.z }),
            pts@[4] == (Vec3 { x: self.max.x, y: self.max.y, z: self.min.z }),
            pts@[5] == (Vec3 { x: self.max.x, y: self.max.y, z: self.max.z }),
            pts@[6] == (Vec3 { x: self.max.x, y: self.min.y, z: self.min.z }),
            pts@[7] == (Vec3 { x: self.max.x, y: self.min.y, z: self.max.z }),
    {
        let min = self.min;
        let max = self.max;
        [
            Vec3 { x: min.x, y: min.y, z: min.z },
            Vec3 { x: min.x, y: min.y, z: max.z },
            Vec3 { x: min.x, y: max.y, z: min.z },
            Vec3 { x: min.x, y: max.y, z: max.z },
            Vec3 { x: max.x, y: max.y, z: min.z },
            Vec3 { x: max.x, y: max.y, z: max.z },
            Vec3 { x: max.x, y: min.y, z: min.z },
            Vec3 { x: max.x, y: min.y, z: max.z },
        ]
    }
}

/// Merging is commutative.
pub proof fn lemma_merge_commutative(a: AABB, b: AABB)
    ensures
        merge_s(a, b) == merge_s(b, a),
{
}

/// Merging is associative.
pub proof fn lemma_merge_associative(a: AABB, b: AABB, c: AABB)
    ensures
        merge_s(merge_s(a, b), c) == merge_s(a, merge_s(b, c)),
{
}

/// Merging a box with itself gives the box back.
pub proof fn lemma_merge_idempotent(a: AABB)
    ensures
        merge_s(a, a) == a,
{
}

/// A ray that the slab test finds inside a box it also finds in any
/// enclosing box: pruning by an enclosing box never loses what the
/// enclosed box's own test would keep.
pub proof fn lemma_slab_contains_monotone(
    outer: AABB,
    inner: AABB,
    r: Ray,
    t_min: int,
    t_max: int,
)
    requires
        aabb_contains_s(outer, inner),
    ensures
        slab_hit_s(inner, r, t_min, t_max) ==> slab_hit_s(outer, r, t_min, t_max),
{
    reveal_with_fuel(entry_upto_s, 4);
    reveal_with_fuel(exit_upto_s, 4);
    assert forall|i: int| 0 <= i < 3 implies entry_s(outer, r, i) <= entry_s(inner, r, i)
        && exit_s(outer, r, i) >= exit_s(inner, r, i) by {
        let d = axis_of(r.dir, i);
        let inv = div_qs(65536, d);
        lemma_div_qs_sign(d);
        lemma_mul_qs_monotone(
            sub_qs(axis_of(outer.min, i), axis_of(r.origin, i)),
            sub_qs(axis_of(inner.min, i), axis_of(r.origin, i)),
            inv,
        );
        lemma_mul_qs_monotone(
            sub_qs(axis_of(inner.max, i), axis_of(r.origin, i)),
            sub_qs(axis_of(outer.max, i), axis_of(r.origin, i)),
            inv,
        );
    }
}

/// The slab test gives the same answer whatever order the three axes
/// are checked in: folding the per-axis entry and exit parameters over
/// any permutation of the axes yields the test's result.
pub proof fn lemma_slab_axis_order(
    b: AABB,
    r: Ray,
    t_min: int,
    t_max: int,
    i: int,
    j: int,
    k: int,
)
    requires
        0 <= i < 3,
        0 <= j < 3,
        0 <= k < 3,
        i != j,
        j != k,
        i != k,
    ensures
        slab_hit_ordered_s(b, r, t_min, t_max, i, j, k) == slab_hit_s(b, r, t_min, t_max),
{
    reveal_with_fuel(entry_upto_s, 4);
    reveal_with_fuel(exit_upto_s, 4);
    assert(entry_upto_s(b, r, t_min, 3) == max_s(
        max_s(max_s(t_min, entry_s(b, r, 0)), entry_s(b, r, 1)),
        entry_s(b, r, 2),
    ));
    assert(exit_upto_s(b, r, t_max, 3) == min_s(
        min_s(min_s(t_max, exit_s(b, r, 0)), exit_s(b, r, 1)),
        exit_s(b, r, 2),
    ));
}

} // verus!
