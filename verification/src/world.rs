//! The world: a flat collection of shapes, intersected by linear scan.
//! The baseline the spatial index is measured against.

use vstd::prelude::*;

use std::sync::Arc;

use crate::aabb::AABB;
use crate::ray::Ray;
use crate::traceable::{
    bbox_s, hit_spec_s, hit_uv_wf, list_bbox_s, list_bounded_upto_s, list_deterministic_s,
    list_merged_upto_s, prefer_later_s, scan_hit_s, RayHit, Traceable,
};

verus! {

/// An unordered, append-only collection of shared shapes.
pub struct World {
    pub objects: Vec<Arc<Traceable>>,
}

impl World {
    /// An empty world.
    pub fn new() -> (w: World)
        ensures
            w.objects@.len() == 0,
    {
        World { objects: Vec::new() }
    }

    /// Remove every shape.
    pub fn clear(&mut self)
        ensures
            final(self).objects@.len() == 0,
    {
        self.objects.clear();
    }

    /// Append a shape.
    pub fn add(&mut self, obj: Arc<Traceable>)
        ensures
            final(self).objects@ == old(self).objects@.push(obj),
    {
        self.objects.push(obj);
    }

    /// The merge of all shapes' boxes, or nothing when the world is
    /// empty or some shape has no box.
    pub fn bounding_box(&self) -> (b: Option<AABB>)
        ensures
            b == list_bbox_s(self.objects@),
        decreases self.objects@, self.objects@.len() + 3,
    {
        let ghost objs = self.objects@;
        let n = self.objects.len();
        if n == 0 {
            return None;
        }

        let mut result = match self.objects[0].bounding_box() {
            None => {
                proof {
                    assert(!list_bounded_upto_s(objs, 1));
                    lemma_unbounded_prefix(objs, 1, objs.len() as int);
                }
                return None;
            },
            Some(b) => b,
        };
        proof {
            assert(list_bounded_upto_s(objs, 0));
            assert(list_bounded_upto_s(objs, 1));
            assert(result == list_merged_upto_s(objs, 1));
        }
        let mut idx: usize = 1;
        while idx < n
            invariant
                1 <= idx <= n,
                n == objs.len(),
                objs == self.objects@,
                list_bounded_upto_s(objs, idx as int),
                result == list_merged_upto_s(objs, idx as int),
            decreases n - idx,
        {
            match self.objects[idx].bounding_box() {
                None => {
                    proof {
                        lemma_unbounded_prefix(objs, idx as int + 1, objs.len() as int);
                    }
                    return None;
                },
                Some(b) => {
                    result = AABB::merge(&b, &result);
                },
            }
            idx = idx + 1;
        }
        Some(result)
    }

    /// Intersect every shape in turn, narrowing the search range to
    /// each hit found, so the result is the nearest hit overall.
    pub fn check_intersection(
        &self,
        r: &Ray,
        t_min: i64,
        t_max: i64,
        rng: &mut rand::rngs::StdRng,
    ) -> (res: Option<RayHit>)
        ensures
            res matches Some(h) ==> t_min <= h.t <= t_max && hit_uv_wf(h),
            list_deterministic_s(self.objects@) ==> res == scan_hit_s(
                self.objects@,
                *r,
                t_min as int,
                t_max as int,
                0,
            ),
        decreases self.objects@, self.objects@.len() + 3,
    {
        let ghost objs = self.objects@;
        let mut result: Option<RayHit> = None;
        let mut closest_so_far = t_max;
        let n = self.objects.len();
        let mut idx: usize = 0;

        while idx < n
            invariant
                0 <= idx <= n,
                n == objs.len(),
                objs == self.objects@,
                match result {
                    Some(b) => t_min <= b.t <= t_max && hit_uv_wf(b) && closest_so_far == b.t,
                    None => closest_so_far == t_max,
                },
                list_deterministic_s(objs) ==> scan_hit_s(
                    objs,
                    *r,
                    t_min as int,
                    t_max as int,
                    0,
                ) == prefer_later_s(
                    result,
                    scan_hit_s(objs, *r, t_min as int, closest_so_far as int, idx as int),
                ),
            decreases n - idx,
        {
            let hit = self.objects[idx].check_intersection(r, t_min, closest_so_far, rng);
            match hit {
                None => (),
                Some(hit_data) => {
                    closest_so_far = hit_data.t;
                    result = Some(hit_data);
                },
            }
            idx = idx + 1;
        }
        result
    }
}

/// A list with an unbounded shape among its first `m` has one among
/// its first `n` too.
proof fn lemma_unbounded_prefix(objs: Seq<Arc<Traceable>>, m: int, n: int)
    requires
        0 <= m <= n <= objs.len(),
        !list_bounded_upto_s(objs, m),
    ensures
        !list_bounded_upto_s(objs, n),
    decreases n - m,
{
    if m < n {
        lemma_unbounded_prefix(objs, m + 1, n);
    }
}

} // verus!
