//! The bounding volume hierarchy: a binary tree over a world's
//! objects that prunes intersection queries with the slab test.
//!
//! Building partitions the object list recursively: one object makes a
//! leaf with both children the same object, two make a leaf with one
//! each, more are sorted along a randomly chosen axis and split at the
//! middle.  Every node's box is the merge of its children's boxes, so
//! construction fails up front on an empty list or an unbounded
//! object.

use vstd::prelude::*;

use std::sync::Arc;

use crate::aabb::{aabb_contains_s, merge_s, slab_hit_s, AABB};
use crate::ray::Ray;
use vstd::multiset::Multiset;
use crate::sampler::next_u32_value;
use crate::traceable::{
    bbox_s, deterministic_s, hit_spec_s, hit_uv_wf, is_cand_s, list_deterministic_s,
    list_is_cand_s, RayHit, Traceable,
};
use crate::vec3::axis_of;
use crate::world::World;

verus! {

/// Why a hierarchy could not be built.
#[derive(Debug, PartialEq, Eq, Structural)]
pub enum BvhBuildError {
    /// There was nothing to build over.
    EmptyWorld,
    /// Some object answers no bounding box.
    MissingBoundingBox,
}

/// A node of the hierarchy: a cached box and two shared children.
pub struct BVHNode {
    pub aabb: AABB,
    pub child_left: Arc<Traceable>,
    pub child_right: Arc<Traceable>,
}

/// The sort key an object contributes on an axis: the low corner of
/// its bounding box.
pub open spec fn axis_key_s(o: Traceable, axis: int) -> int
    decreases o, 1int,
{
    match bbox_s(o) {
        Some(b) => axis_of(b.min, axis),
        None => 0,
    }
}

/// Every object of the list answers a bounding box.
pub open spec fn list_all_bounded_s(objs: Seq<Arc<Traceable>>) -> bool {
    forall|i: int| 0 <= i < objs.len() ==> bbox_s(*#[trigger] objs[i]) is Some
}

/// The list is ordered by the sort key on the given axis.
pub open spec fn sorted_by_key_s(objs: Seq<Arc<Traceable>>, axis: int) -> bool {
    forall|i: int, j: int|
        0 <= i < j < objs.len() ==> axis_key_s(*#[trigger] objs[i], axis) <= axis_key_s(
            *#[trigger] objs[j],
            axis,
        )
}

/// Every node's box is the merge of its children's boxes, down the
/// whole tree.
pub open spec fn bvh_wf_s(n: BVHNode) -> bool
    decreases n,
{
    &&& bbox_s(*n.child_left) is Some
    &&& bbox_s(*n.child_right) is Some
    &&& (match (bbox_s(*n.child_left), bbox_s(*n.child_right)) {
        (Some(lb), Some(rb)) => n.aabb == merge_s(lb, rb),
        _ => false,
    })
    &&& (match *n.child_left {
        Traceable::Bvh(m) => bvh_wf_s(m),
        _ => true,
    })
    &&& (match *n.child_right {
        Traceable::Bvh(m) => bvh_wf_s(m),
        _ => true,
    })
}

/// A shape that is not itself a hierarchy node.
pub open spec fn plain_shape_s(o: Traceable) -> bool {
    !(o matches Traceable::Bvh(_))
}

/// Every object of the list is a plain shape.
pub open spec fn list_plain_s(objs: Seq<Arc<Traceable>>) -> bool {
    forall|i: int| 0 <= i < objs.len() ==> plain_shape_s(*#[trigger] objs[i])
}

/// The object handles at the leaves of a shape, left to right: a
/// hierarchy node flattens to its children's leaves, anything else is
/// its own single leaf.
pub open spec fn leaf_objs_s(a: Arc<Traceable>) -> Seq<Arc<Traceable>>
    decreases a,
{
    match *a {
        Traceable::Bvh(n) => leaf_objs_s(n.child_left) + leaf_objs_s(n.child_right),
        _ => seq![a],
    }
}

/// The leaves under both children of a node.
pub open spec fn node_leaves_s(n: BVHNode) -> Seq<Arc<Traceable>> {
    leaf_objs_s(n.child_left) + leaf_objs_s(n.child_right)
}

/// A handle is in a concatenation exactly when it is in either part.
proof fn lemma_concat_contains(x: Seq<Arc<Traceable>>, y: Seq<Arc<Traceable>>)
    ensures
        forall|o: Arc<Traceable>| #[trigger] (x + y).contains(o) == (x.contains(o) || y.contains(
            o,
        )),
{
    assert forall|o: Arc<Traceable>| #[trigger]
        (x + y).contains(o) == (x.contains(o) || y.contains(o)) by {
        if (x + y).contains(o) {
            let i = choose|i: int| 0 <= i < (x + y).len() && (x + y)[i] == o;
            if i < x.len() {
                assert(x[i] == o);
            } else {
                assert(y[i - x.len()] == o);
            }
        }
        if x.contains(o) {
            let i = choose|i: int| 0 <= i < x.len() && x[i] == o;
            assert((x + y)[i] == o);
        }
        if y.contains(o) {
            let i = choose|i: int| 0 <= i < y.len() && y[i] == o;
            assert((x + y)[x.len() + i] == o);
        }
    }
}

/// Within a well-formed subtree, every leaf shape answers a box that
/// lies inside the subtree's own box.
pub proof fn lemma_wf_leaves_in_box(a: Arc<Traceable>, o: Arc<Traceable>)
    requires
        leaf_objs_s(a).contains(o),
        (match *a {
            Traceable::Bvh(m) => bvh_wf_s(m),
            _ => true,
        }),
        bbox_s(*a) is Some,
    ensures
        bbox_s(*o) matches Some(ib) ==> (bbox_s(*a) matches Some(ab) ==> aabb_contains_s(
            ab,
            ib,
        )),
        bbox_s(*o) is Some,
    decreases a,
{
    match *a {
        Traceable::Bvh(m) => {
            lemma_concat_contains(leaf_objs_s(m.child_left), leaf_objs_s(m.child_right));
            if leaf_objs_s(m.child_left).contains(o) {
                lemma_wf_leaves_in_box(m.child_left, o);
            } else {
                lemma_wf_leaves_in_box(m.child_right, o);
            }
        },
        _ => {
            assert(leaf_objs_s(a) == seq![a]);
            assert(o == a);
        },
    }
}

/// The root box of a well-formed node contains the box of every shape
/// at its leaves.
pub proof fn lemma_wf_node_bounds_leaves(n: BVHNode)
    requires
        bvh_wf_s(n),
    ensures
        forall|o: Arc<Traceable>| #[trigger]
            node_leaves_s(n).contains(o) ==> (bbox_s(*o) matches Some(ib) && aabb_contains_s(
                n.aabb,
                ib,
            )),
{
    assert forall|o: Arc<Traceable>| #[trigger]
        node_leaves_s(n).contains(o) implies (bbox_s(*o) matches Some(ib) && aabb_contains_s(
        n.aabb,
        ib,
    )) by {
        lemma_concat_contains(leaf_objs_s(n.child_left), leaf_objs_s(n.child_right));
        if leaf_objs_s(n.child_left).contains(o) {
            lemma_wf_leaves_in_box(n.child_left, o);
        } else {
            lemma_wf_leaves_in_box(n.child_right, o);
        }
    }
}

/// Every object of the list that is itself a hierarchy node is well
/// formed.
pub open spec fn list_bvh_wf_s(objs: Seq<Arc<Traceable>>) -> bool {
    forall|i: int|
        0 <= i < objs.len() ==> (match *#[trigger] objs[i] {
            Traceable::Bvh(m) => bvh_wf_s(m),
            _ => true,
        })
}

/// What traversing a node returns: nothing when the slab test misses
/// the node's box; otherwise the left result, bettered by the right
/// child searched only below the left hit's distance.
pub open spec fn bvh_node_hit_s(n: BVHNode, r: Ray, t_min: int, t_max: int) -> Option<RayHit>
    decreases n, 2int,
{
    if !slab_hit_s(n.aabb, r, t_min, t_max) {
        None
    } else {
        match hit_spec_s(*n.child_left, r, t_min, t_max) {
            None => hit_spec_s(*n.child_right, r, t_min, t_max),
            Some(lh) => match hit_spec_s(*n.child_right, r, t_min, lh.t as int) {
                None => Some(lh),
                Some(rh) => Some(rh),
            },
        }
    }
}

/// Two lists with the same multiset of objects agree on candidacy,
/// determinism and boundedness.
proof fn lemma_perm_props(s1: Seq<Arc<Traceable>>, s2: Seq<Arc<Traceable>>)
    requires
        s1.to_multiset() == s2.to_multiset(),
    ensures
        list_deterministic_s(s1) ==> list_deterministic_s(s2),
        list_all_bounded_s(s1) ==> list_all_bounded_s(s2),
        list_bvh_wf_s(s1) ==> list_bvh_wf_s(s2),
        list_plain_s(s1) ==> list_plain_s(s2),
        forall|o: Arc<Traceable>| #[trigger] s2.contains(o) == s1.contains(o),
        forall|r: Ray, h: RayHit| #[trigger]
            list_is_cand_s(s2, r, h) == list_is_cand_s(s1, r, h),
{
    broadcast use vstd::seq_lib::group_to_multiset_ensures;

    assert forall|i: int| 0 <= i < s2.len() implies s1.contains(#[trigger] s2[i]) by {
        assert(s2.contains(s2[i]));
        assert(s2.to_multiset().count(s2[i]) > 0);
    }
    assert forall|i: int| 0 <= i < s1.len() implies s2.contains(#[trigger] s1[i]) by {
        assert(s1.contains(s1[i]));
        assert(s1.to_multiset().count(s1[i]) > 0);
    }
    if list_deterministic_s(s1) {
        assert forall|i: int| 0 <= i < s2.len() implies deterministic_s(*#[trigger] s2[i]) by {
            let j = choose|j: int| 0 <= j < s1.len() && s1[j] == s2[i];
            assert(deterministic_s(*s1[j]));
        }
    }
    if list_all_bounded_s(s1) {
        assert forall|i: int| 0 <= i < s2.len() implies bbox_s(*#[trigger] s2[i]) is Some by {
            let j = choose|j: int| 0 <= j < s1.len() && s1[j] == s2[i];
            assert(bbox_s(*s1[j]) is Some);
        }
    }
    if list_bvh_wf_s(s1) {
        assert forall|i: int| 0 <= i < s2.len() implies (match *#[trigger] s2[i] {
            Traceable::Bvh(m) => bvh_wf_s(m),
            _ => true,
        }) by {
            let j = choose|j: int| 0 <= j < s1.len() && s1[j] == s2[i];
            assert(match *s1[j] {
                Traceable::Bvh(m) => bvh_wf_s(m),
                _ => true,
            });
        }
    }
    if list_plain_s(s1) {
        assert forall|i: int| 0 <= i < s2.len() implies plain_shape_s(*#[trigger] s2[i]) by {
            let j = choose|j: int| 0 <= j < s1.len() && s1[j] == s2[i];
            assert(plain_shape_s(*s1[j]));
        }
    }
    assert forall|o: Arc<Traceable>| #[trigger] s2.contains(o) == s1.contains(o) by {
        if s2.contains(o) {
            assert(s2.to_multiset().count(o) > 0);
        }
        if s1.contains(o) {
            assert(s1.to_multiset().count(o) > 0);
        }
    }
    assert forall|r: Ray, h: RayHit| #[trigger]
        list_is_cand_s(s2, r, h) == list_is_cand_s(s1, r, h) by {
        if list_is_cand_s(s2, r, h) {
            let i = choose|i: int| 0 <= i < s2.len() && is_cand_s(*#[trigger] s2[i], r, h);
            let j = choose|j: int| 0 <= j < s1.len() && s1[j] == s2[i];
            assert(is_cand_s(*s1[j], r, h));
        }
        if list_is_cand_s(s1, r, h) {
            let i = choose|i: int| 0 <= i < s1.len() && is_cand_s(*#[trigger] s1[i], r, h);
            let j = choose|j: int| 0 <= j < s2.len() && s2[j] == s1[i];
            assert(is_cand_s(*s2[j], r, h));
        }
    }
}

/// A list's candidacy, determinism and boundedness split at an index.
#[verifier::rlimit(100)]
#[verifier::spinoff_prover]
proof fn lemma_split_props(objs: Seq<Arc<Traceable>>, mid: int)
    requires
        0 <= mid <= objs.len(),
    ensures
        list_deterministic_s(objs) ==> list_deterministic_s(objs.subrange(0, mid))
            && list_deterministic_s(objs.subrange(mid, objs.len() as int)),
        list_all_bounded_s(objs) ==> list_all_bounded_s(objs.subrange(0, mid))
            && list_all_bounded_s(objs.subrange(mid, objs.len() as int)),
        list_bvh_wf_s(objs) ==> list_bvh_wf_s(objs.subrange(0, mid)) && list_bvh_wf_s(
            objs.subrange(mid, objs.len() as int),
        ),
        list_plain_s(objs) ==> list_plain_s(objs.subrange(0, mid)) && list_plain_s(
            objs.subrange(mid, objs.len() as int),
        ),
        forall|o: Arc<Traceable>| #[trigger]
            objs.contains(o) == (objs.subrange(0, mid).contains(o) || objs.subrange(
                mid,
                objs.len() as int,
            ).contains(o)),
        forall|r: Ray, h: RayHit| #[trigger]
            list_is_cand_s(objs, r, h) == (list_is_cand_s(objs.subrange(0, mid), r, h)
                || list_is_cand_s(objs.subrange(mid, objs.len() as int), r, h)),
{
    let a = objs.subrange(0, mid);
    let b = objs.subrange(mid, objs.len() as int);
    assert(forall|i: int| 0 <= i < a.len() ==> #[trigger] a[i] == objs[i]);
    assert(forall|i: int| 0 <= i < b.len() ==> #[trigger] b[i] == objs[mid + i]);
    assert forall|o: Arc<Traceable>| #[trigger]
        objs.contains(o) == (a.contains(o) || b.contains(o)) by {
        if objs.contains(o) {
            let i = choose|i: int| 0 <= i < objs.len() && objs[i] == o;
            if i < mid {
                assert(a[i] == o);
            } else {
                assert(b[i - mid] == o);
            }
        }
        if a.contains(o) {
            let i = choose|i: int| 0 <= i < a.len() && a[i] == o;
            assert(objs[i] == o);
        }
        if b.contains(o) {
            let i = choose|i: int| 0 <= i < b.len() && b[i] == o;
            assert(objs[mid + i] == o);
        }
    }
    if list_plain_s(objs) {
        assert forall|i: int| 0 <= i < a.len() implies plain_shape_s(*#[trigger] a[i]) by {
            assert(plain_shape_s(*objs[i]));
        }
        assert forall|i: int| 0 <= i < b.len() implies plain_shape_s(*#[trigger] b[i]) by {
            assert(plain_shape_s(*objs[mid + i]));
        }
    }
    if list_deterministic_s(objs) {
        assert forall|i: int| 0 <= i < a.len() implies deterministic_s(*#[trigger] a[i]) by {
            assert(deterministic_s(*objs[i]));
        }
        assert forall|i: int| 0 <= i < b.len() implies deterministic_s(*#[trigger] b[i]) by {
            assert(deterministic_s(*objs[mid + i]));
        }
    }
    if list_all_bounded_s(objs) {
        assert forall|i: int| 0 <= i < a.len() implies bbox_s(*#[trigger] a[i]) is Some by {
            assert(bbox_s(*objs[i]) is Some);
        }
        assert forall|i: int| 0 <= i < b.len() implies bbox_s(*#[trigger] b[i]) is Some by {
            assert(bbox_s(*objs[mid + i]) is Some);
        }
    }
    if list_bvh_wf_s(objs) {
        assert forall|i: int| 0 <= i < a.len() implies (match *#[trigger] a[i] {
            Traceable::Bvh(m) => bvh_wf_s(m),
            _ => true,
        }) by {
            assert(match *objs[i] {
                Traceable::Bvh(m) => bvh_wf_s(m),
                _ => true,
            });
        }
        assert forall|i: int| 0 <= i < b.len() implies (match *#[trigger] b[i] {
            Traceable::Bvh(m) => bvh_wf_s(m),
            _ => true,
        }) by {
            assert(match *objs[mid + i] {
                Traceable::Bvh(m) => bvh_wf_s(m),
                _ => true,
            });
        }
    }
    assert forall|r: Ray, h: RayHit| #[trigger]
        list_is_cand_s(objs, r, h) == (list_is_cand_s(a, r, h) || list_is_cand_s(b, r, h)) by {
        if list_is_cand_s(objs, r, h) {
            let i = choose|i: int| 0 <= i < objs.len() && is_cand_s(*#[trigger] objs[i], r, h);
            if i < mid {
                assert(a[i] == objs[i]);
                assert(is_cand_s(*a[i], r, h));
            } else {
                assert(b[i - mid] == objs[i]);
                assert(is_cand_s(*b[i - mid], r, h));
            }
        }
        if list_is_cand_s(a, r, h) {
            let i = choose|i: int| 0 <= i < a.len() && is_cand_s(*#[trigger] a[i], r, h);
            assert(objs[i] == a[i]);
            assert(is_cand_s(*objs[i], r, h));
        }
        if list_is_cand_s(b, r, h) {
            let i = choose|i: int| 0 <= i < b.len() && is_cand_s(*#[trigger] b[i], r, h);
            assert(objs[mid + i] == b[i]);
            assert(is_cand_s(*objs[mid + i], r, h));
        }
    }
}

/// The sort key of an object: the low corner of its bounding box on
/// the chosen axis, zero for an unbounded object.
fn axis_key(o: &Traceable, axis: usize) -> (k: i64)
    requires
        axis < 3,
    ensures
        k as int == axis_key_s(*o, axis as int),
{
    match o.bounding_box() {
        Some(bb) => bb.min.axis(axis),
        None => 0,
    }
}

/// Sort objects by the low corner of their bounding boxes on the
/// chosen axis, keeping exactly the same objects.  Every object must
/// answer a bounding box, the case on which the sort key is defined.
pub fn sort_by_axis_distance(objects: &mut Vec<Arc<Traceable>>, axis_to_sort_by: usize)
    requires
        axis_to_sort_by < 3,
        list_all_bounded_s(old(objects)@),
    ensures
        final(objects)@.to_multiset() == old(objects)@.to_multiset(),
        final(objects)@.len() == old(objects)@.len(),
        sorted_by_key_s(final(objects)@, axis_to_sort_by as int),
{
    broadcast use vstd::seq_lib::group_to_multiset_ensures;

    let ghost orig = objects@;
    let mut out: Vec<Arc<Traceable>> = Vec::new();

    while objects.len() > 0
        invariant
            axis_to_sort_by < 3,
            out@.to_multiset().add(objects@.to_multiset()) =~= orig.to_multiset(),
            sorted_by_key_s(out@, axis_to_sort_by as int),
            forall|i: int, j: int|
                0 <= i < out@.len() && 0 <= j < objects@.len() ==> axis_key_s(
                    *#[trigger] out@[i],
                    axis_to_sort_by as int,
                ) <= axis_key_s(*#[trigger] objects@[j], axis_to_sort_by as int),
        decreases objects@.len(),
    {
        let mut min_idx: usize = 0;
        let mut min_key = axis_key(&objects[0], axis_to_sort_by);
        let mut j: usize = 1;
        while j < objects.len()
            invariant
                axis_to_sort_by < 3,
                objects@.len() > 0,
                min_idx < objects@.len(),
                j <= objects@.len(),
                min_key as int == axis_key_s(*objects@[min_idx as int], axis_to_sort_by as int),
                forall|j2: int|
                    0 <= j2 < j ==> min_key as int <= axis_key_s(
                        *#[trigger] objects@[j2],
                        axis_to_sort_by as int,
                    ),
            decreases objects@.len() - j,
        {
            let k = axis_key(&objects[j], axis_to_sort_by);
            if k < min_key {
                min_idx = j;
                min_key = k;
            }
            j = j + 1;
        }

        let ghost pre = objects@;
        let ghost pre_out = out@;
        let v = objects.remove(min_idx);
        out.push(v);
        proof {
            pre.to_multiset_ensures();
            pre_out.to_multiset_ensures();
            assert(out@ == pre_out.push(v));
            assert(out@.to_multiset() =~= pre_out.to_multiset().insert(v));
            assert(objects@ == pre.remove(min_idx as int));
            assert(objects@.to_multiset() =~= pre.to_multiset().remove(v)) by {
                assert(pre[min_idx as int] == v);
            }
            assert(pre.to_multiset().count(v) > 0) by {
                assert(pre.contains(v)) by {
                    assert(pre[min_idx as int] == v);
                }
            }
            assert(out@.to_multiset().add(objects@.to_multiset()) =~= orig.to_multiset());
            assert forall|i: int, j2: int|
                0 <= i < out@.len() && 0 <= j2 < objects@.len() implies axis_key_s(
                *#[trigger] out@[i],
                axis_to_sort_by as int,
            ) <= axis_key_s(*#[trigger] objects@[j2], axis_to_sort_by as int) by {
                assert(objects@[j2] == if j2 < min_idx as int {
                    pre[j2]
                } else {
                    pre[j2 + 1]
                });
            }
        }
    }
    proof {
        objects@.to_multiset_ensures();
        out@.to_multiset_ensures();
        orig.to_multiset_ensures();
        assert(objects@.to_multiset() =~= Multiset::empty());
        assert(out@.to_multiset().add(Multiset::empty()) =~= out@.to_multiset());
    }
    *objects = out;
}

impl BVHNode {
    /// The node's cached box.
    pub fn bounding_box(&self) -> (b: Option<AABB>)
        ensures
            b == Some(self.aabb),
    {
        Some(self.aabb)
    }

    /// Traverse the tree: prune the whole subtree when the slab test
    /// misses the node's box, otherwise search the left child and then
    /// the right child only below the left hit's distance.
    pub fn check_intersection(
        &self,
        r: &Ray,
        t_min: i64,
        t_max: i64,
        rng: &mut rand::rngs::StdRng,
    ) -> (res: Option<RayHit>)
        ensures
            res matches Some(h) ==> t_min <= h.t <= t_max && hit_uv_wf(h),
            deterministic_s(*self.child_left) && deterministic_s(*self.child_right) ==> res
                == bvh_node_hit_s(*self, *r, t_min as int, t_max as int),
        decreases *self, 3int,
    {
        if !self.aabb.check_intersection(r, t_min, t_max) {
            return None;
        }

        match self.child_left.check_intersection(r, t_min, t_max, rng) {
            None => self.child_right.check_intersection(r, t_min, t_max, rng),
            Some(left_hit_data) => {
                let hit_right = self.child_right.check_intersection(
                    r,
                    t_min,
                    left_hit_data.t,
                    rng,
                );
                match hit_right {
                    None => Some(left_hit_data),
                    Some(right_hit_data) => Some(right_hit_data),
                }
            },
        }
    }

    /// Build a hierarchy over a world's objects.  Fails on an empty
    /// world or on any object without a bounding box; a built tree
    /// holds exactly the world's objects at its leaves, its boxes
    /// merge upward, and the root box contains every leaf's box.
    pub fn build(world: &World, rng: &mut rand::rngs::StdRng) -> (res: Result<
        BVHNode,
        BvhBuildError,
    >)
        ensures
            res is Ok <==> (world.objects@.len() >= 1 && list_all_bounded_s(world.objects@)),
            world.objects@.len() == 0 ==> res == Err::<BVHNode, BvhBuildError>(
                BvhBuildError::EmptyWorld,
            ),
            world.objects@.len() >= 1 && !list_all_bounded_s(world.objects@) ==> res == Err::<
                BVHNode,
                BvhBuildError,
            >(BvhBuildError::MissingBoundingBox),
            res matches Ok(node) ==> {
                &&& (list_bvh_wf_s(world.objects@) ==> bvh_wf_s(node))
                &&& (list_deterministic_s(world.objects@) ==> deterministic_s(
                    Traceable::Bvh(node),
                ))
                &&& (list_plain_s(world.objects@) ==> (forall|o: Arc<Traceable>| #[trigger]
                    node_leaves_s(node).contains(o) == world.objects@.contains(o)))
                &&& (list_bvh_wf_s(world.objects@) ==> (forall|o: Arc<Traceable>| #[trigger]
                    node_leaves_s(node).contains(o) ==> (bbox_s(*o) matches Some(ib)
                        && aabb_contains_s(node.aabb, ib))))
                &&& forall|ray: Ray, h: RayHit| #[trigger]
                    is_cand_s(Traceable::Bvh(node), ray, h) == list_is_cand_s(
                        world.objects@,
                        ray,
                        h,
                    )
            },
    {
        let n = world.objects.len();
        if n == 0 {
            return Err(BvhBuildError::EmptyWorld);
        }

        let mut i: usize = 0;
        while i < n
            invariant
                i <= n,
                n == world.objects@.len(),
                forall|j: int| 0 <= j < i ==> bbox_s(*#[trigger] world.objects@[j]) is Some,
            decreases n - i,
        {
            if world.objects[i].bounding_box().is_none() {
                return Err(BvhBuildError::MissingBoundingBox);
            }
            i = i + 1;
        }

        let mut copy: Vec<Arc<Traceable>> = Vec::new();
        let mut i: usize = 0;
        while i < n
            invariant
                i <= n,
                n == world.objects@.len(),
                copy@ =~= world.objects@.subrange(0, i as int),
            decreases n - i,
        {
            copy.push(world.objects[i].clone());
            proof {
                assert(copy@ =~= world.objects@.subrange(0, i as int + 1));
            }
            i = i + 1;
        }
        proof {
            assert(copy@ =~= world.objects@);
        }
        let node = BVHNode::build_range(copy, rng);
        proof {
            if list_bvh_wf_s(world.objects@) {
                lemma_wf_node_bounds_leaves(crate::laws::held(&node));
            }
        }
        Ok(node)
    }

    /// Build a subtree over a nonempty list of bounded objects.
    #[verifier::rlimit(100)]
    fn build_range(objects: Vec<Arc<Traceable>>, rng: &mut rand::rngs::StdRng) -> (node: BVHNode)
        requires
            objects@.len() >= 1,
            list_all_bounded_s(objects@),
        ensures
            list_bvh_wf_s(objects@) ==> bvh_wf_s(node),
            list_deterministic_s(objects@) ==> deterministic_s(Traceable::Bvh(node)),
            list_plain_s(objects@) ==> (forall|o: Arc<Traceable>| #[trigger]
                node_leaves_s(node).contains(o) == objects@.contains(o)),
            forall|ray: Ray, h: RayHit| #[trigger]
                is_cand_s(Traceable::Bvh(node), ray, h) == list_is_cand_s(objects@, ray, h),
        decreases objects@.len(),
    {
        let n = objects.len();
        if n == 1 {
            let child = objects[0].clone();
            let bb = match child.bounding_box() {
                Some(b) => b,
                None => {
                    proof {
                        assert(false);
                    }
                    AABB::ginormous()
                },
            };
            let node = BVHNode {
                aabb: AABB::merge(&bb, &bb),
                child_left: child.clone(),
                child_right: child,
            };
            proof {
                assert forall|ray: Ray, h: RayHit| #[trigger]
                    is_cand_s(Traceable::Bvh(node), ray, h) == list_is_cand_s(
                    objects@,
                    ray,
                    h,
                ) by {
                    if is_cand_s(Traceable::Bvh(node), ray, h) {
                        assert(is_cand_s(*objects@[0], ray, h));
                    }
                    if list_is_cand_s(objects@, ray, h) {
                        let i = choose|i: int|
                            0 <= i < objects@.len() && is_cand_s(*#[trigger] objects@[i], ray, h);
                        assert(i == 0);
                    }
                }
                if list_plain_s(objects@) {
                    assert(plain_shape_s(*objects@[0]));
                    assert(leaf_objs_s(node.child_left) == seq![node.child_left]);
                    assert(leaf_objs_s(node.child_right) == seq![node.child_right]);
                    assert forall|o: Arc<Traceable>| #[trigger]
                        node_leaves_s(node).contains(o) == objects@.contains(o) by {
                        if node_leaves_s(node).contains(o) {
                            let i = choose|i: int|
                                0 <= i < node_leaves_s(node).len() && node_leaves_s(node)[i] == o;
                            assert(objects@[0] == o);
                        }
                        if objects@.contains(o) {
                            let i = choose|i: int| 0 <= i < objects@.len() && objects@[i] == o;
                            assert(i == 0);
                            assert(node_leaves_s(node)[0] == o);
                        }
                    }
                }
            }
            return node;
        }
        if n == 2 {
            let left = objects[0].clone();
            let right = objects[1].clone();
            let bb_left = match left.bounding_box() {
                Some(b) => b,
                None => {
                    proof {
                        assert(false);
                    }
                    AABB::ginormous()
                },
            };
            let bb_right = match right.bounding_box() {
                Some(b) => b,
                None => {
                    proof {
                        assert(false);
                    }
                    AABB::ginormous()
                },
            };
            let node = BVHNode {
                aabb: AABB::merge(&bb_left, &bb_right),
                child_left: left,
                child_right: right,
            };
            proof {
                assert forall|ray: Ray, h: RayHit| #[trigger]
                    is_cand_s(Traceable::Bvh(node), ray, h) == list_is_cand_s(
                    objects@,
                    ray,
                    h,
                ) by {
                    if is_cand_s(*objects@[0], ray, h) || is_cand_s(*objects@[1], ray, h) {
                        assert(list_is_cand_s(objects@, ray, h));
                    }
                    if list_is_cand_s(objects@, ray, h) {
                        let i = choose|i: int|
                            0 <= i < objects@.len() && is_cand_s(*#[trigger] objects@[i], ray, h);
                        assert(i == 0 || i == 1);
                    }
                }
                if list_plain_s(objects@) {
                    assert(plain_shape_s(*objects@[0]) && plain_shape_s(*objects@[1]));
                    assert(leaf_objs_s(node.child_left) == seq![node.child_left]);
                    assert(leaf_objs_s(node.child_right) == seq![node.child_right]);
                    assert forall|o: Arc<Traceable>| #[trigger]
                        node_leaves_s(node).contains(o) == objects@.contains(o) by {
                        if node_leaves_s(node).contains(o) {
                            let i = choose|i: int|
                                0 <= i < node_leaves_s(node).len() && node_leaves_s(node)[i] == o;
                            assert(objects@[0] == o || objects@[1] == o);
                        }
                        if objects@.contains(o) {
                            let i = choose|i: int| 0 <= i < objects@.len() && objects@[i] == o;
                            assert(i == 0 || i == 1);
                            if i == 0 {
                                assert(node_leaves_s(node)[0] == o);
                            } else {
                                assert(node_leaves_s(node)[1] == o);
                            }
                        }
                    }
                }
            }
            return node;
        }

        // many objects: pick an axis at random, sort along it, split
        // in the middle and recurse
        let axis = (next_u32_value(rng) % 3) as usize;
        let mut work = objects;
        let ghost pre_sort = work@;
        sort_by_axis_distance(&mut work, axis);
        proof {
            lemma_perm_props(pre_sort, work@);
            lemma_perm_props(work@, pre_sort);
            lemma_split_props(work@, (work@.len() / 2) as int);
        }

        let mid = n / 2;
        let mut left_vec: Vec<Arc<Traceable>> = Vec::new();
        let mut i: usize = 0;
        while i < mid
            invariant
                i <= mid,
                mid < n,
                n == work@.len(),
                left_vec@ =~= work@.subrange(0, i as int),
            decreases mid - i,
        {
            left_vec.push(work[i].clone());
            proof {
                assert(left_vec@ =~= work@.subrange(0, i as int + 1));
            }
            i = i + 1;
        }
        let mut right_vec: Vec<Arc<Traceable>> = Vec::new();
        let mut i: usize = mid;
        while i < n
            invariant
                mid <= i <= n,
                n == work@.len(),
                right_vec@ =~= work@.subrange(mid as int, i as int),
            decreases n - i,
        {
            right_vec.push(work[i].clone());
            proof {
                assert(right_vec@ =~= work@.subrange(mid as int, i as int + 1));
            }
            i = i + 1;
        }
        proof {
            assert(left_vec@ =~= work@.subrange(0, mid as int));
            assert(right_vec@ =~= work@.subrange(mid as int, work@.len() as int));
        }

        let left_node = BVHNode::build_range(left_vec, rng);
        let right_node = BVHNode::build_range(right_vec, rng);
        let aabb = AABB::merge(&left_node.aabb, &right_node.aabb);
        let node = BVHNode {
            aabb,
            child_left: Arc::new(Traceable::Bvh(left_node)),
            child_right: Arc::new(Traceable::Bvh(right_node)),
        };
        proof {
            let lv = left_vec@;
            let rv = right_vec@;
            if list_bvh_wf_s(objects@) {
                assert(list_bvh_wf_s(work@));
                assert(list_bvh_wf_s(lv) && list_bvh_wf_s(rv));
                assert(bvh_wf_s(left_node) && bvh_wf_s(right_node));
                assert(bvh_wf_s(node));
            }
            if list_deterministic_s(objects@) {
                assert(list_deterministic_s(work@));
                assert(list_deterministic_s(lv) && list_deterministic_s(rv));
                assert(deterministic_s(Traceable::Bvh(node)));
            }
            if list_plain_s(objects@) {
                assert(list_plain_s(work@));
                assert(list_plain_s(lv) && list_plain_s(rv));
                lemma_concat_contains(
                    leaf_objs_s(node.child_left),
                    leaf_objs_s(node.child_right),
                );
                assert(leaf_objs_s(node.child_left) == node_leaves_s(left_node));
                assert(leaf_objs_s(node.child_right) == node_leaves_s(right_node));
                assert forall|o: Arc<Traceable>| #[trigger]
                    node_leaves_s(node).contains(o) == objects@.contains(o) by {
                    assert(node_leaves_s(node).contains(o) == (node_leaves_s(
                        left_node,
                    ).contains(o) || node_leaves_s(right_node).contains(o)));
                    assert(node_leaves_s(left_node).contains(o) == lv.contains(o));
                    assert(node_leaves_s(right_node).contains(o) == rv.contains(o));
                    assert(work@.contains(o) == (lv.contains(o) || rv.contains(o)));
                    assert(work@.contains(o) == objects@.contains(o));
                }
            }
            assert forall|ray: Ray, h: RayHit| #[trigger]
                is_cand_s(Traceable::Bvh(node), ray, h) == list_is_cand_s(
                objects@,
                ray,
                h,
            ) by {
                assert(is_cand_s(Traceable::Bvh(node), ray, h) == (is_cand_s(
                    Traceable::Bvh(left_node),
                    ray,
                    h,
                ) || is_cand_s(Traceable::Bvh(right_node), ray, h)));
                assert(is_cand_s(Traceable::Bvh(left_node), ray, h) == list_is_cand_s(
                    lv,
                    ray,
                    h,
                ));
                assert(is_cand_s(Traceable::Bvh(right_node), ray, h) == list_is_cand_s(
                    rv,
                    ray,
                    h,
                ));
                assert(list_is_cand_s(work@, ray, h) == (list_is_cand_s(lv, ray, h)
                    || list_is_cand_s(rv, ray, h)));
                assert(list_is_cand_s(work@, ray, h) == list_is_cand_s(objects@, ray, h));
            }
        }
        node
    }
}

} // verus!
