//! The pass that writes every entity's [`Transform`] from its
//! [`Transform2`] and [`Depth`].

use super::components::{Depth, Transform, Transform2, Vec3};
use super::world::{wf_forest, Entity, EntityView, World};
use crate::scalar::Scalar;
use vstd::prelude::*;

verus! {

/// The z translation that an entity gets.
///
/// `cumulative` is the sum of the z translations of the entity's ancestors,
/// `current` the z translation that the entity has so far. An exact depth is
/// taken relative to the ancestors, an inherited depth as it is; without a
/// depth the entity keeps what it has.
pub open spec fn resolved_z<S: Scalar>(depth: Option<Depth<S>>, cumulative: S, current: S) -> S {
    match depth {
        Some(Depth::Exact(v)) => v.spec_minus(cumulative),
        Some(Depth::Inherit(v)) => v,
        None => current,
    }
}

/// The transform that an entity gets: `local`, where there is one, gives
/// position, rotation and scale in the plane, and `depth` gives the z
/// translation; the z scale is never written.
pub open spec fn propagated_transform<S: Scalar>(
    transform: Transform<S>,
    local: Option<Transform2<S>>,
    depth: Option<Depth<S>>,
    cumulative: S,
) -> Transform<S> {
    let z = resolved_z(depth, cumulative, transform.translation.z);
    match local {
        Some(local) => Transform {
            translation: Vec3 { x: local.translation.x, y: local.translation.y, z },
            rotation: local.rotation,
            scale: Vec3 { x: local.scale.x, y: local.scale.y, z: transform.scale.z },
        },
        None => Transform {
            translation: Vec3 { x: transform.translation.x, y: transform.translation.y, z },
            rotation: transform.rotation,
            scale: transform.scale,
        },
    }
}

/// The cumulative depth that an entity hands to its children, given the one
/// that it received: the entity's own z translation is added, once it is
/// resolved. An entity without a [`Transform`] hands on what it received.
pub open spec fn cumulative_below<S: Scalar>(entity: EntityView<S>, cumulative: S) -> S {
    match entity.transform {
        Some(transform) => cumulative.spec_plus(
            resolved_z(entity.depth, cumulative, transform.translation.z),
        ),
        None => cumulative,
    }
}

/// The cumulative depth with which the pass arrives at entity `e`: 0 at a
/// root, and below a parent what the parent hands on.
pub open spec fn cumulative_depth<S: Scalar>(w: Seq<EntityView<S>>, e: int) -> S
    decreases e,
{
    if 0 <= e < w.len() {
        match w[e].parent {
            Some(p) => if 0 <= p < e {
                cumulative_below(w[p], cumulative_depth(w, p))
            } else {
                S::spec_zero()
            },
            None => S::spec_zero(),
        }
    } else {
        S::spec_zero()
    }
}

/// Entity `e` after the pass: its transform, if it has one, is rewritten;
/// its links and its other components stay.
pub open spec fn propagated_entity<S: Scalar>(w: Seq<EntityView<S>>, e: int) -> EntityView<S> {
    EntityView {
        transform: match w[e].transform {
            Some(transform) => Some(
                propagated_transform(transform, w[e].transform2, w[e].depth, cumulative_depth(w, e)),
            ),
            None => None,
        },
        ..w[e]
    }
}

/// The store after the pass.
pub open spec fn propagated<S: Scalar>(w: Seq<EntityView<S>>) -> Seq<EntityView<S>> {
    Seq::new(w.len(), |e: int| propagated_entity(w, e))
}

/// Whether `root` is `e` or one of its ancestors.
pub open spec fn in_subtree<S: Scalar>(w: Seq<EntityView<S>>, root: int, e: int) -> bool
    decreases e,
{
    0 <= e < w.len() && (e == root || match w[e].parent {
        Some(p) => 0 <= p < e && in_subtree(w, root, p),
        None => false,
    })
}

/// Whether `current` is `initial` with the pass done on some entities and
/// still to do on the others.
spec fn partly_propagated<S: Scalar>(initial: Seq<EntityView<S>>, current: Seq<EntityView<S>>) -> bool {
    &&& current.len() == initial.len()
    &&& forall|e: int|
        0 <= e < initial.len() ==> #[trigger] current[e] == initial[e] || current[e]
            == propagated_entity(initial, e)
}

/// The pass arrives at an entity with the same cumulative depth, and leaves
/// it with the same result, whether or not it has been over some entities
/// before.
proof fn lemma_stable<S: Scalar>(initial: Seq<EntityView<S>>, current: Seq<EntityView<S>>, e: int)
    requires
        partly_propagated(initial, current),
        0 <= e < initial.len(),
    ensures
        cumulative_depth(current, e) == cumulative_depth(initial, e),
        propagated_entity(current, e) == propagated_entity(initial, e),
        cumulative_below(current[e], cumulative_depth(current, e)) == cumulative_below(
            initial[e],
            cumulative_depth(initial, e),
        ),
    decreases e,
{
    assert(current[e] == initial[e] || current[e] == propagated_entity(initial, e));
    match initial[e].parent {
        Some(p) => {
            if 0 <= p < e {
                lemma_stable(initial, current, p);
            }
        },
        None => {},
    }
}

/// The pass arrives at an entity with the same cumulative depth, and leaves
/// it with the same result, when it runs on the store that it has left.
pub(super) proof fn lemma_stable_after_pass<S: Scalar>(w: Seq<EntityView<S>>, e: int)
    requires
        0 <= e < w.len(),
    ensures
        cumulative_depth(propagated(w), e) == cumulative_depth(w, e),
        propagated_entity(propagated(w), e) == propagated_entity(w, e),
{
    assert(partly_propagated(w, propagated(w)));
    lemma_stable(w, propagated(w), e);
}

/// The store keeps its links while the pass runs.
proof fn lemma_partly_propagated_wf<S: Scalar>(initial: Seq<EntityView<S>>, current: Seq<EntityView<S>>)
    requires
        wf_forest(initial),
        partly_propagated(initial, current),
    ensures
        wf_forest(current),
        forall|e: int|
            0 <= e < initial.len() ==> (#[trigger] current[e]).parent == initial[e].parent
                && current[e].children == initial[e].children,
{
    assert forall|e: int| 0 <= e < initial.len() implies (#[trigger] current[e]).parent
        == initial[e].parent && current[e].children == initial[e].children by {
        assert(current[e] == initial[e] || current[e] == propagated_entity(initial, e));
    }
    assert forall|e: int| 0 <= e < current.len() implies match (#[trigger] current[e]).parent {
        Some(p) => 0 <= p < e && current[p].children.contains(e),
        None => true,
    } by {
        match initial[e].parent {
            Some(p) => {
                assert(current[p].children == initial[p].children);
            },
            None => {},
        }
    }
    assert forall|e: int, k: int|
        0 <= e < current.len() && 0 <= k < current[e].children.len() implies {
        let c = #[trigger] current[e].children[k];
        e < c < current.len() && current[c].parent == Some(e)
    } by {
        let c = initial[e].children[k];
        assert(e < c < initial.len() && initial[c].parent == Some(e));
        assert(current[c].parent == initial[c].parent);
    }
}

/// An entity below `root` is below one of the children of `root`.
proof fn lemma_subtree_of_child<S: Scalar>(w: Seq<EntityView<S>>, root: int, e: int) -> (k: int)
    requires
        wf_forest(w),
        0 <= root < w.len(),
        in_subtree(w, root, e),
        e != root,
    ensures
        0 <= k < w[root].children.len(),
        in_subtree(w, w[root].children[k], e),
    decreases e,
{
    let p = w[e].parent.unwrap();
    if p == root {
        assert(w[p].children.contains(e));
        let k = choose|k: int| 0 <= k < w[root].children.len() && w[root].children[k] == e;
        k
    } else {
        lemma_subtree_of_child(w, root, p)
    }
}

/// Every entity is below a root.
proof fn lemma_root_above<S: Scalar>(w: Seq<EntityView<S>>, e: int) -> (root: int)
    requires
        wf_forest(w),
        0 <= e < w.len(),
    ensures
        0 <= root <= e,
        w[root].parent.is_none(),
        in_subtree(w, root, e),
    decreases e,
{
    match w[e].parent {
        Some(p) => lemma_root_above(w, p),
        None => e,
    }
}

/// Writes the transform of one entity, and returns the cumulative depth
/// that its children receive.
///
/// Position, rotation and scale in the plane are copied from `transform2`
/// where there is one. The z translation is resolved from `depth`: an exact
/// depth less `cumulative_depth`, an inherited depth as it is, and without a
/// depth the z translation stays. The z translation is then added to
/// `cumulative_depth`.
pub fn update_transform2<S: Scalar>(
    transform: &mut Transform<S>,
    transform2: Option<Transform2<S>>,
    depth: Option<Depth<S>>,
    cumulative_depth: S,
) -> (below: S)
    ensures
        *final(transform) == propagated_transform(
            *old(transform),
            transform2,
            depth,
            cumulative_depth,
        ),
        below == cumulative_depth.spec_plus(
            resolved_z(depth, cumulative_depth, old(transform).translation.z),
        ),
{
    if let Some(transform2) = transform2 {
        transform.translation.x = transform2.translation.x;
        transform.translation.y = transform2.translation.y;
        transform.scale.x = transform2.scale.x;
        transform.scale.y = transform2.scale.y;
        transform.rotation = transform2.rotation;
    }
    if let Some(depth) = depth {
        transform.translation.z = match depth {
            Depth::Exact(depth_value) => depth_value.minus(cumulative_depth),
            Depth::Inherit(depth_value) => depth_value,
        };
    }
    cumulative_depth.plus(transform.translation.z)
}

/// Writes the transform of `entity` and of every entity below it.
///
/// `cumulative_depth` is the sum of the z translations of the ancestors of
/// `entity`. `initial` is the store as it was when the pass began.
fn update_transform2_recursive<S: Scalar>(
    entity: Entity,
    world: &mut World<S>,
    cumulative_depth: S,
    Ghost(initial): Ghost<Seq<EntityView<S>>>,
)
    requires
        wf_forest(initial),
        partly_propagated(initial, old(world)@),
        entity.0 < initial.len(),
        cumulative_depth == self::cumulative_depth(initial, entity.0 as int),
    ensures
        partly_propagated(initial, final(world)@),
        forall|e: int|
            in_subtree(initial, entity.0 as int, e) ==> #[trigger] final(world)@[e]
                == propagated_entity(initial, e),
        forall|e: int|
            0 <= e < initial.len() && old(world)@[e] == propagated_entity(initial, e)
                ==> #[trigger] final(world)@[e] == propagated_entity(initial, e),
    decreases initial.len() - entity.0,
{
    let ghost index = entity.0 as int;
    let mut cumulative_depth = cumulative_depth;
    proof {
        lemma_stable(initial, world@, index);
    }
    if let Some(transform) = world.transform(entity) {
        let mut transform = transform;
        cumulative_depth = update_transform2(
            &mut transform,
            world.transform2(entity),
            world.depth(entity),
            cumulative_depth,
        );
        world.set_transform(entity, Some(transform));
        assert(world@[index] == propagated_entity(old(world)@, index));
    }
    assert(world@[index] == propagated_entity(initial, index));
    assert(cumulative_depth == cumulative_below(
        initial[index],
        self::cumulative_depth(initial, index),
    ));
    proof {
        lemma_partly_propagated_wf(initial, old(world)@);
    }
    let children = world.children(entity);
    let ghost listed = children@.map_values(|c: Entity| c.0 as int);
    assert(listed == initial[index].children);
    let mut k: usize = 0;
    while k < children.len()
        invariant
            wf_forest(initial),
            index == entity.0,
            0 <= index < initial.len(),
            k <= children.len(),
            listed == children@.map_values(|c: Entity| c.0 as int),
            listed == initial[index].children,
            partly_propagated(initial, world@),
            cumulative_depth == cumulative_below(
                initial[index],
                self::cumulative_depth(initial, index),
            ),
            world@[index] == propagated_entity(initial, index),
            forall|e: int|
                0 <= e < initial.len() && old(world)@[e] == propagated_entity(initial, e)
                    ==> #[trigger] world@[e] == propagated_entity(initial, e),
            forall|j: int, e: int|
                0 <= j < k && #[trigger] in_subtree(initial, listed[j], e) ==> world@[e]
                    == propagated_entity(initial, e),
        decreases children.len() - k,
    {
        let child = children[k];
        let ghost c = child.0 as int;
        assert(c == listed[k as int]);
        assert(index < c < initial.len() && initial[c].parent == Some(index));
        let ghost round = world@;
        update_transform2_recursive(child, world, cumulative_depth, Ghost(initial));
        proof {
            assert forall|j: int, e: int|
                0 <= j < k + 1 && #[trigger] in_subtree(initial, listed[j], e) implies world@[e]
                == propagated_entity(initial, e) by {
                if j < k {
                    assert(round[e] == propagated_entity(initial, e));
                }
            }
        }
        k += 1;
    }
    proof {
        assert forall|e: int| in_subtree(initial, index, e) implies #[trigger] world@[e]
            == propagated_entity(initial, e) by {
            if e != index {
                let j = lemma_subtree_of_child(initial, index, e);
                assert(in_subtree(initial, listed[j], e));
            }
        }
    }
}

/// Propagates [`Transform2`] and [`Depth`] values to [`Transform`].
///
/// The pass starts at every root with a cumulative depth of 0 and walks down
/// to the children. At an entity with a [`Transform`] it copies position,
/// rotation and scale from the [`Transform2`], resolves the z translation
/// from the [`Depth`], and adds the z translation to the cumulative depth
/// that the children receive. An entity without a [`Transform`] is walked
/// through and left as it is.
pub fn transform2_propagate<S: Scalar>(world: &mut World<S>)
    requires
        old(world).wf(),
    ensures
        final(world).wf(),
        final(world)@ == propagated(old(world)@),
{
    let ghost initial = world@;
    let roots = world.roots();
    let mut i: usize = 0;
    while i < roots.len()
        invariant
            wf_forest(initial),
            i <= roots.len(),
            partly_propagated(initial, world@),
            forall|j: int|
                0 <= j < roots@.len() ==> (#[trigger] roots@[j]).0 < initial.len()
                    && initial[roots@[j].0 as int].parent.is_none(),
            forall|j: int, e: int|
                0 <= j < i && #[trigger] in_subtree(initial, roots@[j].0 as int, e) ==> world@[e]
                    == propagated_entity(initial, e),
        decreases roots.len() - i,
    {
        let root_entity = roots[i];
        let ghost round = world@;
        update_transform2_recursive(root_entity, world, S::zero(), Ghost(initial));
        proof {
            assert forall|j: int, e: int|
                0 <= j < i + 1 && #[trigger] in_subtree(initial, roots@[j].0 as int, e) implies world@[e]
                == propagated_entity(initial, e) by {
                if j < i {
                    assert(round[e] == propagated_entity(initial, e));
                }
            }
        }
        i += 1;
    }
    proof {
        lemma_partly_propagated_wf(initial, world@);
        assert forall|e: int| 0 <= e < initial.len() implies world@[e] == propagated_entity(
            initial,
            e,
        ) by {
            let root = lemma_root_above(initial, e);
            let listed = roots@.map_values(|r: Entity| r.0 as int);
            assert(listed.contains(root));
            let j = choose|j: int| 0 <= j < listed.len() && listed[j] == root;
            assert(in_subtree(initial, roots@[j].0 as int, e));
        }
        assert(world@ =~= propagated(initial));
    }
}

} // verus!
