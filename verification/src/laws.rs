//! The library's global statements about intersection.
//!
//! The central one: for a deterministic shape whose boxes prune
//! soundly, the intersection result is exactly the nearest candidate
//! in range, so the spatial index returns the same nearest hit as the
//! linear scan over the same objects.

use vstd::prelude::*;

use std::sync::Arc;

use crate::aabb::{slab_hit_s, AABB};
use crate::bvh::BVHNode;
use crate::ray::Ray;
use crate::sphere::{
    lemma_sphere_root_order, sphere_cand1_s, sphere_cand2_s, sphere_root1_s, sphere_root2_s,
};
use crate::traceable::{
    deterministic_s, hit_spec_s, is_cand_s, list_deterministic_s, list_is_cand_s, scan_hit_s,
    RayHit, Traceable,
};
use crate::transform::{inner_ray_s, mat3_mul_vec_s, xform_hit_s, Mat3, Transform};
use crate::vec3::{unit_s, v_add_s, v_sub_s, Vec3};
use crate::world::World;

verus! {

/// The value a shared reference points at.
pub open spec fn held<T>(x: &T) -> T {
    *x
}

/// The shape a shared handle holds.
pub open spec fn held_obj(a: &Arc<Traceable>) -> Traceable {
    **a
}

/// The shape at an index of a list.
pub open spec fn obj_at(objs: Seq<Arc<Traceable>>, i: int) -> Traceable {
    *objs[i]
}

/// The box never admits a candidate of the shape that it excludes: for
/// every parameter range, when the slab test misses the box, no
/// candidate of the shape lies in that range.  This is the soundness
/// of pruning.  A built tree's root box contains every leaf's own box
/// (the builder ensures it), and a slab hit inside a contained box is
/// a slab hit in any enclosing box (a proved law of the slab test),
/// so what this hypothesis adds is only the primitives' rounding
/// fact: each shape's candidates lie within its own box, up to the
/// truncation of the fixed-point quadratic and plane arithmetic.
#[verifier::opaque]
pub open spec fn box_rejects_s(bb: AABB, r: Ray, o: Traceable) -> bool {
    forall|ta: int, tb: int, h: RayHit|
        #![trigger slab_hit_s(bb, r, ta, tb), is_cand_s(o, r, h)]
        (!slab_hit_s(bb, r, ta, tb) && ta <= h.t as int && h.t as int <= tb) ==> !is_cand_s(
            o,
            r,
            h,
        )
}

/// Every box in the shape prunes soundly, down the whole structure;
/// a wrapped shape is judged against the ray it is handed.
pub open spec fn prune_sound_s(o: Traceable, r: Ray) -> bool
    decreases o, 1int,
{
    match o {
        Traceable::Sphere(_) => true,
        Traceable::Rectangle(_) => true,
        Traceable::BoxPrim(b) => prune_list_s(b.side_planes.objects@, r),
        Traceable::Transform(tf) => prune_sound_s(*tf.object, inner_ray_s(tf, r)),
        Traceable::Volumetric(v) => true,
        Traceable::World(w) => prune_list_s(w.objects@, r),
        Traceable::Bvh(n) => box_rejects_s(n.aabb, r, *n.child_left) && box_rejects_s(
            n.aabb,
            r,
            *n.child_right,
        ) && prune_sound_s(*n.child_left, r) && prune_sound_s(*n.child_right, r),
    }
}

/// Every shape of a list prunes soundly.
pub open spec fn prune_list_s(objs: Seq<Arc<Traceable>>, r: Ray) -> bool
    decreases objs, 2int,
{
    forall|i: int| 0 <= i < objs.len() ==> prune_sound_s(*#[trigger] objs[i], r)
}

/// Some shape of the list from index `i` on has this candidate.
pub open spec fn list_cand_from_s(objs: Seq<Arc<Traceable>>, r: Ray, h: RayHit, i: int) -> bool {
    exists|j: int| i <= j < objs.len() && is_cand_s(*#[trigger] objs[j], r, h)
}

/// The shape's intersection over `[t0, t1]` is exactly its nearest
/// candidate there: a reported hit is a candidate in range, any
/// candidate in range forces a report, and no candidate in range beats
/// the reported one.
pub open spec fn characterizes_s(o: Traceable, r: Ray, t0: int, t1: int) -> bool {
    &&& (hit_spec_s(o, r, t0, t1) matches Some(h0) ==> is_cand_s(o, r, h0) && t0 <= h0.t as int
        && h0.t as int <= t1)
    &&& (forall|h: RayHit| #[trigger]
        is_cand_s(o, r, h) ==> ((t0 <= h.t as int && h.t as int <= t1) ==> hit_spec_s(
            o,
            r,
            t0,
            t1,
        ) is Some))
    &&& (forall|h: RayHit| #[trigger]
        is_cand_s(o, r, h) ==> ((t0 <= h.t as int && h.t as int <= t1) ==> (hit_spec_s(
            o,
            r,
            t0,
            t1,
        ) matches Some(h0) ==> h0.t <= h.t)))
}

/// The scan from index `i` is exactly the nearest candidate of the
/// shapes from `i` on.
pub open spec fn scan_characterizes_s(
    objs: Seq<Arc<Traceable>>,
    r: Ray,
    t0: int,
    t1: int,
    i: int,
) -> bool {
    &&& (scan_hit_s(objs, r, t0, t1, i) matches Some(h0) ==> list_cand_from_s(objs, r, h0, i)
        && t0 <= h0.t as int && h0.t as int <= t1)
    &&& (forall|h: RayHit| #[trigger]
        list_cand_from_s(objs, r, h, i) ==> ((t0 <= h.t as int && h.t as int <= t1)
            ==> scan_hit_s(objs, r, t0, t1, i) is Some))
    &&& (forall|h: RayHit| #[trigger]
        list_cand_from_s(objs, r, h, i) ==> ((t0 <= h.t as int && h.t as int <= t1) ==> (
        scan_hit_s(objs, r, t0, t1, i) matches Some(h0) ==> h0.t <= h.t)))
}

/// The characterization of a sphere's intersection: the nearer root
/// wins, and the farther root is the only other candidate.
proof fn lemma_char_sphere(s: crate::sphere::Sphere, r: Ray, t0: int, t1: int)
    ensures
        characterizes_s(Traceable::Sphere(s), r, t0, t1),
{
    reveal(crate::sphere::sphere_hit_spec_s);
    reveal(crate::sphere::sphere_is_cand_s);
    if crate::sphere::sphere_has_cands_s(s, r) {
        lemma_sphere_root_order(s, r);
        assert(sphere_cand1_s(s, r).t as int == sphere_root1_s(s, r));
        assert(sphere_cand2_s(s, r).t as int == sphere_root2_s(s, r));
    }
}

/// The characterization of a rectangle's intersection: there is at
/// most the one candidate at the plane crossing.
proof fn lemma_char_rect(rc: crate::rectangle::Rectangle, r: Ray, t0: int, t1: int)
    ensures
        characterizes_s(Traceable::Rectangle(rc), r, t0, t1),
{
    reveal(crate::rectangle::rect_hit_spec_s);
    reveal(crate::rectangle::rect_is_cand_s);
}

/// The characterization of a wrapped shape's intersection: distances
/// pass through the space conversion unchanged, so the nearest inner
/// candidate maps to the nearest outer one.
#[verifier::rlimit(100)]
#[verifier::spinoff_prover]
proof fn lemma_char_transform(tf: Transform, r: Ray, t0: int, t1: int)
    requires
        deterministic_s(Traceable::Transform(tf)),
        prune_sound_s(Traceable::Transform(tf), r),
    ensures
        characterizes_s(Traceable::Transform(tf), r, t0, t1),
    decreases tf, 3int,
{
    let o = Traceable::Transform(tf);
    let ir = inner_ray_s(held(&tf), r);
    lemma_nearest_hit_characterization(held_obj(&tf.object), ir, t0, t1);
    match hit_spec_s(held_obj(&tf.object), ir, t0, t1) {
        None => {
            assert forall|h: RayHit|
                (#[trigger] is_cand_s(o, r, h) && t0 <= h.t as int && h.t as int
                    <= t1) implies false by {
                let hi = choose|hi: RayHit|
                    is_cand_s(held_obj(&tf.object), ir, hi) && h == xform_hit_s(held(&tf), hi);
                assert(hi.t == h.t);
                assert(is_cand_s(held_obj(&tf.object), ir, hi));
            }
        },
        Some(ch) => {
            assert(is_cand_s(o, r, xform_hit_s(held(&tf), ch))) by {
                assert(is_cand_s(held_obj(&tf.object), ir, ch) && xform_hit_s(held(&tf), ch)
                    == xform_hit_s(held(&tf), ch));
            }
            assert forall|h: RayHit|
                (#[trigger] is_cand_s(o, r, h) && t0 <= h.t as int && h.t as int
                    <= t1) implies ch.t <= h.t by {
                let hi = choose|hi: RayHit|
                    is_cand_s(held_obj(&tf.object), ir, hi) && h == xform_hit_s(held(&tf), hi);
                assert(hi.t == h.t);
                assert(is_cand_s(held_obj(&tf.object), ir, hi));
            }
        },
    }
}

/// The pruned branch of a tree node: when the slab test misses the
/// node's box, sound pruning leaves no candidate in range.
proof fn lemma_char_bvh_miss(n: BVHNode, r: Ray, t0: int, t1: int)
    requires
        prune_sound_s(Traceable::Bvh(n), r),
        !slab_hit_s(n.aabb, r, t0, t1),
    ensures
        characterizes_s(Traceable::Bvh(n), r, t0, t1),
{
    let o = Traceable::Bvh(n);
    assert forall|h: RayHit|
        (#[trigger] is_cand_s(o, r, h) && t0 <= h.t as int && h.t as int <= t1) implies false by {
        reveal(box_rejects_s);
        assert(is_cand_s(held_obj(&n.child_left), r, h) || is_cand_s(
            held_obj(&n.child_right),
            r,
            h,
        ));
        assert(!is_cand_s(held_obj(&n.child_left), r, h));
        assert(!is_cand_s(held_obj(&n.child_right), r, h));
    }
}

/// The searched branch of a tree node: combine the children's nearest
/// candidates, the right child searched only below the left hit.
#[verifier::rlimit(100)]
#[verifier::spinoff_prover]
proof fn lemma_char_bvh_search(n: BVHNode, r: Ray, t0: int, t1: int)
    requires
        slab_hit_s(n.aabb, r, t0, t1),
        characterizes_s(*n.child_left, r, t0, t1),
        hit_spec_s(*n.child_left, r, t0, t1) is None ==> characterizes_s(
            *n.child_right,
            r,
            t0,
            t1,
        ),
        hit_spec_s(*n.child_left, r, t0, t1) matches Some(lh) ==> characterizes_s(
            *n.child_right,
            r,
            t0,
            lh.t as int,
        ),
    ensures
        characterizes_s(Traceable::Bvh(n), r, t0, t1),
{
    let o = Traceable::Bvh(n);
    match hit_spec_s(held_obj(&n.child_left), r, t0, t1) {
        None => {
            assert forall|h: RayHit|
                (#[trigger] is_cand_s(o, r, h) && t0 <= h.t as int && h.t as int
                    <= t1) implies is_cand_s(held_obj(&n.child_right), r, h) by {
                assert(is_cand_s(held_obj(&n.child_left), r, h) || is_cand_s(
                    held_obj(&n.child_right),
                    r,
                    h,
                ));
                if is_cand_s(held_obj(&n.child_left), r, h) {
                    assert(hit_spec_s(held_obj(&n.child_left), r, t0, t1) is Some);
                    assert(false);
                }
            }
        },
        Some(lh) => {
            match hit_spec_s(held_obj(&n.child_right), r, t0, lh.t as int) {
                None => {
                    assert forall|h: RayHit|
                        (#[trigger] is_cand_s(o, r, h) && t0 <= h.t as int && h.t as int
                            <= t1) implies lh.t <= h.t by {
                        assert(is_cand_s(held_obj(&n.child_left), r, h) || is_cand_s(
                            held_obj(&n.child_right),
                            r,
                            h,
                        ));
                        if is_cand_s(held_obj(&n.child_left), r, h) {
                            assert(lh.t <= h.t);
                        } else {
                            if h.t < lh.t {
                                assert(t0 <= h.t as int && h.t as int <= lh.t as int);
                                assert(hit_spec_s(
                                    held_obj(&n.child_right),
                                    r,
                                    t0,
                                    lh.t as int,
                                ) is Some);
                                assert(false);
                            }
                        }
                    }
                },
                Some(rh) => {
                    assert(t0 <= rh.t as int && rh.t as int <= lh.t as int);
                    assert forall|h: RayHit|
                        (#[trigger] is_cand_s(o, r, h) && t0 <= h.t as int && h.t as int
                            <= t1) implies rh.t <= h.t by {
                        assert(is_cand_s(held_obj(&n.child_left), r, h) || is_cand_s(
                            held_obj(&n.child_right),
                            r,
                            h,
                        ));
                        if is_cand_s(held_obj(&n.child_left), r, h) {
                            assert(lh.t <= h.t);
                        } else {
                            if h.t < rh.t {
                                assert(t0 <= h.t as int && h.t as int <= lh.t as int);
                                assert(rh.t <= h.t);
                                assert(false);
                            }
                        }
                    }
                },
            }
        },
    }
}

/// Candidates of a collection shape are candidates of its list.
proof fn lemma_char_list_bridge(o: Traceable, objs: Seq<Arc<Traceable>>, r: Ray, t0: int, t1: int)
    requires
        forall|h: RayHit| #[trigger] is_cand_s(o, r, h) == list_is_cand_s(objs, r, h),
        hit_spec_s(o, r, t0, t1) == scan_hit_s(objs, r, t0, t1, 0),
        scan_characterizes_s(objs, r, t0, t1, 0),
    ensures
        characterizes_s(o, r, t0, t1),
{
    lemma_cand_from_zero(objs, r);
    match scan_hit_s(objs, r, t0, t1, 0) {
        None => {},
        Some(h0) => {
            assert(list_cand_from_s(objs, r, h0, 0));
            assert(list_is_cand_s(objs, r, h0));
            assert(is_cand_s(o, r, h0));
        },
    }
    assert forall|h: RayHit|
        (#[trigger] is_cand_s(o, r, h) && t0 <= h.t as int && h.t as int <= t1) implies (
    scan_hit_s(objs, r, t0, t1, 0) is Some && (scan_hit_s(objs, r, t0, t1, 0) matches Some(h0)
        ==> h0.t <= h.t)) by {
        assert(list_is_cand_s(objs, r, h));
        assert(list_cand_from_s(objs, r, h, 0));
    }
}

/// The nearest-candidate law.  A deterministic shape whose boxes prune
/// soundly returns, over any range, exactly the nearest candidate in
/// that range, as `characterizes_s` spells out.
#[verifier::rlimit(100)]
#[verifier::spinoff_prover]
pub proof fn lemma_nearest_hit_characterization(o: Traceable, r: Ray, t0: int, t1: int)
    requires
        deterministic_s(o),
        prune_sound_s(o, r),
    ensures
        characterizes_s(o, r, t0, t1),
    decreases o, 4int,
{
    match &o {
        Traceable::Sphere(s) => {
            lemma_char_sphere(held(s), r, t0, t1);
        },
        Traceable::Rectangle(rc) => {
            lemma_char_rect(held(rc), r, t0, t1);
        },
        Traceable::BoxPrim(b) => {
            lemma_scan_characterization(b.side_planes.objects@, r, t0, t1, 0);
            lemma_char_list_bridge(o, b.side_planes.objects@, r, t0, t1);
        },
        Traceable::Transform(tf) => {
            lemma_char_transform(held(tf), r, t0, t1);
        },
        Traceable::Volumetric(_) => {
            assert(false);
        },
        Traceable::World(w) => {
            lemma_scan_characterization(w.objects@, r, t0, t1, 0);
            lemma_char_list_bridge(o, w.objects@, r, t0, t1);
        },
        Traceable::Bvh(n) => {
            if !slab_hit_s(n.aabb, r, t0, t1) {
                lemma_char_bvh_miss(held(n), r, t0, t1);
            } else {
                lemma_nearest_hit_characterization(held_obj(&n.child_left), r, t0, t1);
                match hit_spec_s(held_obj(&n.child_left), r, t0, t1) {
                    None => {
                        lemma_nearest_hit_characterization(held_obj(&n.child_right), r, t0, t1);
                    },
                    Some(lh) => {
                        lemma_nearest_hit_characterization(
                            held_obj(&n.child_right),
                            r,
                            t0,
                            lh.t as int,
                        );
                    },
                }
                lemma_char_bvh_search(held(n), r, t0, t1);
            }
        },
    }
}

/// A list's candidates from the start are exactly its candidates.
proof fn lemma_cand_from_zero(objs: Seq<Arc<Traceable>>, r: Ray)
    ensures
        forall|h: RayHit| #[trigger]
            list_is_cand_s(objs, r, h) == list_cand_from_s(objs, r, h, 0),
{
    assert forall|h: RayHit| #[trigger]
        list_is_cand_s(objs, r, h) == list_cand_from_s(objs, r, h, 0) by {
        if list_is_cand_s(objs, r, h) {
            let j = choose|j: int| 0 <= j < objs.len() && is_cand_s(*#[trigger] objs[j], r, h);
            assert(0 <= j < objs.len() && is_cand_s(*objs[j], r, h));
        }
        if list_cand_from_s(objs, r, h, 0) {
            let j = choose|j: int| 0 <= j < objs.len() && is_cand_s(*#[trigger] objs[j], r, h);
            assert(0 <= j < objs.len() && is_cand_s(*objs[j], r, h));
        }
    }
}

/// The scan from index `i` returns exactly the nearest candidate of
/// the shapes from `i` on, because each hit narrows the range the rest
/// are searched in.
#[verifier::rlimit(100)]
#[verifier::spinoff_prover]
proof fn lemma_scan_characterization(
    objs: Seq<Arc<Traceable>>,
    r: Ray,
    t0: int,
    t1: int,
    i: int,
)
    requires
        0 <= i <= objs.len(),
        list_deterministic_s(objs),
        prune_list_s(objs, r),
    ensures
        scan_characterizes_s(objs, r, t0, t1, i),
    decreases objs, objs.len() - i,
{
    if i >= objs.len() {
        assert forall|h: RayHit|
            (#[trigger] list_cand_from_s(objs, r, h, i) && t0 <= h.t as int && h.t as int
                <= t1) implies false by {
            let j = choose|j: int| i <= j < objs.len() && is_cand_s(*#[trigger] objs[j], r, h);
        }
    } else {
        assert(deterministic_s(*objs[i]) && prune_sound_s(*objs[i], r));
        lemma_nearest_hit_characterization(obj_at(objs, i), r, t0, t1);
        match hit_spec_s(obj_at(objs, i), r, t0, t1) {
            None => {
                lemma_scan_characterization(objs, r, t0, t1, i + 1);
                assert(scan_hit_s(objs, r, t0, t1, i) == scan_hit_s(objs, r, t0, t1, i + 1));
                match scan_hit_s(objs, r, t0, t1, i + 1) {
                    None => {},
                    Some(h0) => {
                        let j = choose|j: int|
                            i + 1 <= j < objs.len() && is_cand_s(*#[trigger] objs[j], r, h0);
                        assert(list_cand_from_s(objs, r, h0, i));
                    },
                }
                assert forall|h: RayHit|
                    (#[trigger] list_cand_from_s(objs, r, h, i) && t0 <= h.t as int && h.t as int
                        <= t1) implies list_cand_from_s(objs, r, h, i + 1) by {
                    let j = choose|j: int|
                        i <= j < objs.len() && is_cand_s(*#[trigger] objs[j], r, h);
                    if j == i {
                        assert(is_cand_s(*objs[i], r, h));
                        assert(false);
                    } else {
                        assert(list_cand_from_s(objs, r, h, i + 1));
                    }
                }
            },
            Some(fh) => {
                lemma_scan_characterization(objs, r, t0, fh.t as int, i + 1);
                match scan_hit_s(objs, r, t0, fh.t as int, i + 1) {
                    None => {
                        assert(scan_hit_s(objs, r, t0, t1, i) == Some(fh));
                        assert(list_cand_from_s(objs, r, fh, i)) by {
                            assert(i <= i < objs.len() && is_cand_s(*objs[i], r, fh));
                        }
                        assert forall|h: RayHit|
                            (#[trigger] list_cand_from_s(objs, r, h, i) && t0 <= h.t as int && h.t
                                as int <= t1) implies fh.t <= h.t by {
                            let j = choose|j: int|
                                i <= j < objs.len() && is_cand_s(*#[trigger] objs[j], r, h);
                            if j > i && h.t < fh.t {
                                assert(list_cand_from_s(objs, r, h, i + 1));
                                assert(t0 <= h.t as int && h.t as int <= fh.t as int);
                            }
                        }
                    },
                    Some(rh) => {
                        assert(scan_hit_s(objs, r, t0, t1, i) == Some(rh));
                        assert(list_cand_from_s(objs, r, rh, i)) by {
                            let j = choose|j: int|
                                i + 1 <= j < objs.len() && is_cand_s(*#[trigger] objs[j], r, rh);
                        }
                        assert forall|h: RayHit|
                            (#[trigger] list_cand_from_s(objs, r, h, i) && t0 <= h.t as int && h.t
                                as int <= t1) implies rh.t <= h.t by {
                            let j = choose|j: int|
                                i <= j < objs.len() && is_cand_s(*#[trigger] objs[j], r, h);
                            if h.t < rh.t {
                                assert(rh.t <= fh.t);
                                if j == i {
                                    assert(fh.t <= h.t);
                                    assert(false);
                                } else {
                                    assert(list_cand_from_s(objs, r, h, i + 1));
                                    assert(t0 <= h.t as int && h.t as int <= fh.t as int);
                                }
                            }
                        }
                    },
                }
            },
        }
    }
}

/// The spatial index agrees with the linear scan.  Over the same set
/// of candidates, with sound pruning, the tree and the flat list both
/// return the nearest hit: they miss together, agree on the hit
/// distance, and when no two distinct candidates share a distance they
/// return the very same hit, material identity included.
pub proof fn lemma_bvh_matches_linear_scan(
    world: World,
    tree: BVHNode,
    r: Ray,
    t0: int,
    t1: int,
)
    requires
        list_deterministic_s(world.objects@),
        deterministic_s(Traceable::Bvh(tree)),
        prune_sound_s(Traceable::Bvh(tree), r),
        prune_list_s(world.objects@, r),
        forall|h: RayHit| #[trigger]
            is_cand_s(Traceable::Bvh(tree), r, h) == list_is_cand_s(world.objects@, r, h),
    ensures
        (hit_spec_s(Traceable::Bvh(tree), r, t0, t1) is Some) == (hit_spec_s(
            Traceable::World(world),
            r,
            t0,
            t1,
        ) is Some),
        hit_spec_s(Traceable::Bvh(tree), r, t0, t1) matches Some(bh) ==> (hit_spec_s(
            Traceable::World(world),
            r,
            t0,
            t1,
        ) matches Some(wh) ==> bh.t == wh.t),
        (forall|h1: RayHit, h2: RayHit|
            (#[trigger] is_cand_s(Traceable::Bvh(tree), r, h1) && #[trigger] is_cand_s(
                Traceable::Bvh(tree),
                r,
                h2,
            ) && h1.t == h2.t) ==> h1 == h2) ==> hit_spec_s(Traceable::Bvh(tree), r, t0, t1)
            == hit_spec_s(Traceable::World(world), r, t0, t1),
{
    let tv = Traceable::Bvh(tree);
    let wv = Traceable::World(world);
    lemma_nearest_hit_characterization(held(&tv), r, t0, t1);
    lemma_nearest_hit_characterization(held(&wv), r, t0, t1);
    match (hit_spec_s(held(&tv), r, t0, t1), hit_spec_s(held(&wv), r, t0, t1)) {
        (None, None) => {},
        (Some(bh), None) => {
            assert(is_cand_s(held(&tv), r, bh));
            assert(is_cand_s(held(&wv), r, bh));
            assert(false);
        },
        (None, Some(wh)) => {
            assert(is_cand_s(held(&wv), r, wh));
            assert(is_cand_s(held(&tv), r, wh));
            assert(false);
        },
        (Some(bh), Some(wh)) => {
            assert(is_cand_s(held(&tv), r, wh));
            assert(is_cand_s(held(&wv), r, bh));
            assert(bh.t <= wh.t && wh.t <= bh.t);
            if forall|h1: RayHit, h2: RayHit|
                (#[trigger] is_cand_s(held(&tv), r, h1) && #[trigger] is_cand_s(held(&tv), r, h2)
                    && h1.t == h2.t) ==> h1 == h2 {
                assert(is_cand_s(held(&tv), r, bh));
                assert(bh == wh);
            }
        },
    }
}

/// An identity transform intersects exactly like the shape it wraps:
/// the inner ray is the outer ray unchanged, misses coincide, and a
/// hit keeps its distance, point, surface coordinates, facing and
/// material; the normal alone is passed through renormalization, and
/// comes out as exactly the renormalized inner normal.
pub proof fn lemma_identity_transform_hits_alike(tf: Transform, r: Ray, t0: int, t1: int)
    requires
        tf.rot == (Mat3 {
            r0: Vec3 { x: 65536, y: 0, z: 0 },
            r1: Vec3 { x: 0, y: 65536, z: 0 },
            r2: Vec3 { x: 0, y: 0, z: 65536 },
        }),
        tf.rot_inv == tf.rot,
        tf.translation == (Vec3 { x: 0, y: 0, z: 0 }),
    ensures
        inner_ray_s(tf, r) == r,
        (hit_spec_s(Traceable::Transform(tf), r, t0, t1) is Some) == (hit_spec_s(
            *tf.object,
            r,
            t0,
            t1,
        ) is Some),
        hit_spec_s(Traceable::Transform(tf), r, t0, t1) matches Some(th) ==> (hit_spec_s(
            *tf.object,
            r,
            t0,
            t1,
        ) matches Some(oh) ==> th.t == oh.t && th.p == oh.p && th.u == oh.u && th.v == oh.v
            && th.front_face == oh.front_face && th.material == oh.material && th.normal
            == unit_s(oh.normal)),
{
    lemma_identity_mul_vec(tf.rot, v_add_s(r.origin, tf.translation));
    lemma_identity_mul_vec(tf.rot, r.dir);
    assert(v_add_s(r.origin, tf.translation) == r.origin);
    assert(inner_ray_s(tf, r) == r);
    match hit_spec_s(held_obj(&tf.object), r, t0, t1) {
        None => {},
        Some(oh) => {
            lemma_identity_mul_vec(tf.rot_inv, oh.p);
            lemma_identity_mul_vec(tf.rot_inv, oh.normal);
            assert(v_sub_s(mat3_mul_vec_s(tf.rot_inv, oh.p), tf.translation) == oh.p);
        },
    }
}

/// The identity matrix maps every vector to itself, exactly.
proof fn lemma_identity_mul_vec(m: Mat3, v: Vec3)
    requires
        m == (Mat3 {
            r0: Vec3 { x: 65536, y: 0, z: 0 },
            r1: Vec3 { x: 0, y: 65536, z: 0 },
            r2: Vec3 { x: 0, y: 0, z: 65536 },
        }),
    ensures
        mat3_mul_vec_s(m, v) == v,
{
    crate::qmath::lemma_mul_qs_one(v.x as int);
    crate::qmath::lemma_mul_qs_one(v.y as int);
    crate::qmath::lemma_mul_qs_one(v.z as int);
}

} // verus!
