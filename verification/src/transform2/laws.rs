//! What holds of the propagation pass.

use super::components::{Depth, Transform, Transform2};
use super::propagate::{
    cumulative_below, cumulative_depth, lemma_stable_after_pass, propagated, propagated_entity,
    propagated_transform, resolved_z,
};
use super::world::{wf_forest, EntityView};
use crate::scalar::Scalar;
use vstd::prelude::*;

verus! {

/// The components of the entities on the way from a root down to `e`, with
/// those of `e` last.
pub open spec fn lineage<S: Scalar>(w: Seq<EntityView<S>>, e: int) -> Seq<
    (Option<Transform<S>>, Option<Transform2<S>>, Option<Depth<S>>),
>
    decreases e,
{
    if 0 <= e < w.len() {
        let own = (w[e].transform, w[e].transform2, w[e].depth);
        match w[e].parent {
            Some(p) => if 0 <= p < e {
                lineage(w, p).push(own)
            } else {
                seq![own]
            },
            None => seq![own],
        }
    } else {
        Seq::empty()
    }
}

/// Running the pass a second time, with nothing changed in between, gives
/// the store that the first run gave.
pub proof fn law_propagate_idempotent<S: Scalar>(w: Seq<EntityView<S>>)
    ensures
        propagated(propagated(w)) == propagated(w),
{
    let once = propagated(w);
    assert forall|e: int| 0 <= e < w.len() implies propagated_entity(once, e) == once[e] by {
        lemma_stable_after_pass(w, e);
    }
    assert(propagated(once) =~= once);
}

/// What the pass writes for an entity depends on the entities on the way
/// from its root down to it, and on nothing else: two entities with the same
/// lineage, in one store or in two, are reached with the same cumulative
/// depth and get the same transform. Sibling subtrees and other trees have
/// no part in it.
pub proof fn law_tree_independence<S: Scalar>(
    w1: Seq<EntityView<S>>,
    e1: int,
    w2: Seq<EntityView<S>>,
    e2: int,
)
    requires
        wf_forest(w1),
        wf_forest(w2),
        0 <= e1 < w1.len(),
        0 <= e2 < w2.len(),
        lineage(w1, e1) == lineage(w2, e2),
    ensures
        cumulative_depth(w1, e1) == cumulative_depth(w2, e2),
        cumulative_below(w1[e1], cumulative_depth(w1, e1)) == cumulative_below(
            w2[e2],
            cumulative_depth(w2, e2),
        ),
        propagated(w1)[e1].transform == propagated(w2)[e2].transform,
    decreases e1,
{
    let l1 = lineage(w1, e1);
    let l2 = lineage(w2, e2);
    let own1 = (w1[e1].transform, w1[e1].transform2, w1[e1].depth);
    let own2 = (w2[e2].transform, w2[e2].transform2, w2[e2].depth);
    assert(l1.last() == own1);
    assert(l2.last() == own2);
    match (w1[e1].parent, w2[e2].parent) {
        (Some(p1), Some(p2)) => {
            assert(w1[e1].parent == Some(p1) && w2[e2].parent == Some(p2));
            assert(l1.drop_last() =~= lineage(w1, p1));
            assert(l2.drop_last() =~= lineage(w2, p2));
            law_tree_independence(w1, p1, w2, p2);
        },
        (Some(p1), None) => {
            assert(w1[e1].parent == Some(p1));
            lemma_lineage_len(w1, p1);
        },
        (None, Some(p2)) => {
            assert(w2[e2].parent == Some(p2));
            lemma_lineage_len(w2, p2);
        },
        (None, None) => {},
    }
}

/// A lineage holds at least the entity itself.
proof fn lemma_lineage_len<S: Scalar>(w: Seq<EntityView<S>>, e: int)
    requires
        0 <= e < w.len(),
    ensures
        lineage(w, e).len() >= 1,
{
}

/// At a cumulative depth of 0, and so at every root, an exact depth and an
/// inherited depth of the same value give the same z translation, for
/// every kind of scalar that leaves a number as it is when 0 is taken off
/// it.
pub proof fn law_depth_kinds_agree_at_zero<S: Scalar>(value: S, current: S)
    requires
        value.spec_minus(S::spec_zero()) == value,
    ensures
        resolved_z(Some(Depth::Exact(value)), S::spec_zero(), current) == resolved_z(
            Some(Depth::Inherit(value)),
            S::spec_zero(),
            current,
        ),
        resolved_z(Some(Depth::Exact(value)), S::spec_zero(), current) == value,
{
}

/// An entity with the identity as its transform in the plane and without a
/// depth gets the identity as its transform, whatever its ancestors hold,
/// provided that its z translation and its z scale, which the pass leaves
/// alone, are 0 and 1.
pub proof fn law_identity_propagation<S: Scalar>(w: Seq<EntityView<S>>, e: int)
    requires
        0 <= e < w.len(),
        w[e].transform2 == Some(Transform2::<S>::identity()),
        w[e].depth.is_none(),
        w[e].transform matches Some(transform) && transform.translation.z == S::spec_zero()
            && transform.scale.z == S::spec_one(),
    ensures
        propagated(w)[e].transform == Some(Transform::<S>::identity()),
{
}

/// A root with an exact depth gets that depth as its z translation, for
/// every kind of scalar that leaves a number as it is when 0 is taken off
/// it.
pub proof fn law_exact_depth_at_root<S: Scalar>(w: Seq<EntityView<S>>, e: int, value: S)
    requires
        0 <= e < w.len(),
        w[e].parent.is_none(),
        w[e].transform.is_some(),
        w[e].depth == Some(Depth::Exact(value)),
        value.spec_minus(S::spec_zero()) == value,
    ensures
        propagated(w)[e].transform.unwrap().translation.z == value,
{
}

/// An entity with an inherited depth gets that depth as its z translation,
/// whatever its ancestors hold: the value is taken as relative to the parent
/// already.
pub proof fn law_inherited_depth<S: Scalar>(w: Seq<EntityView<S>>, e: int, value: S)
    requires
        0 <= e < w.len(),
        w[e].transform.is_some(),
        w[e].depth == Some(Depth::Inherit(value)),
    ensures
        propagated(w)[e].transform.unwrap().translation.z == value,
{
}

/// Below an entity with a transform, the cumulative depth is the one that
/// the entity received plus the z translation that the entity got: the
/// depths add up along the way down, whatever kind of depth each entity has.
pub proof fn law_depth_adds_up<S: Scalar>(w: Seq<EntityView<S>>, parent: int, child: int)
    requires
        wf_forest(w),
        0 <= child < w.len(),
        w[child].parent == Some(parent),
        w[parent].transform.is_some(),
    ensures
        cumulative_depth(w, child) == cumulative_depth(w, parent).spec_plus(
            propagated(w)[parent].transform.unwrap().translation.z,
        ),
{
}

/// An entity with neither a transform in the plane nor a depth is left as
/// it is.
pub proof fn law_bare_entity_untouched<S: Scalar>(w: Seq<EntityView<S>>, e: int)
    requires
        0 <= e < w.len(),
        w[e].transform2.is_none(),
        w[e].depth.is_none(),
    ensures
        propagated(w)[e] == w[e],
{
    match w[e].transform {
        Some(transform) => {
            assert(propagated_transform(transform, None, None, cumulative_depth(w, e)) == transform);
        },
        None => {},
    }
}

/// Writing an entity a second time, with the same cumulative depth, changes
/// nothing.
pub proof fn law_update_idempotent<S: Scalar>(
    transform: Transform<S>,
    local: Option<Transform2<S>>,
    depth: Option<Depth<S>>,
    cumulative: S,
)
    ensures
        propagated_transform(
            propagated_transform(transform, local, depth, cumulative),
            local,
            depth,
            cumulative,
        ) == propagated_transform(transform, local, depth, cumulative),
{
}

/// An exact depth is the depth that the entity has in the world: in whole
/// numbers, and as long as nothing is clamped, the z translations on the way
/// down to the entity add up to the value that the entity asked for,
/// and that sum is what its children receive.
pub proof fn law_exact_depth_is_absolute(value: i32, cumulative: i32, current: i32)
    requires
        i32::MIN <= value - cumulative <= i32::MAX,
    ensures
        cumulative.spec_plus(resolved_z(Some(Depth::Exact(value)), cumulative, current)) == value,
{
}

/// Whole numbers leave a number as it is when 0 is taken off it.
pub proof fn law_whole_numbers_keep_exact_depth(value: i32)
    ensures
        value.spec_minus(i32::spec_zero()) == value,
{
}

} // verus!
