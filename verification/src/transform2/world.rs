//! A store of entities that form a forest, each with its optional components.

use super::components::{Depth, Transform, Transform2};
use crate::scalar::Scalar;
use vstd::prelude::*;

verus! {

/// The name of an entity in a [`World`]: the order in which it was spawned.
#[derive(Clone, Copy, Debug, PartialEq, Eq, Hash, Structural)]
pub struct Entity(pub usize);

/// What a [`World`] holds of one entity, as contracts see it.
#[verifier::ext_equal]
pub struct EntityView<S> {
    /// The entity's parent, if it has one.
    pub parent: Option<int>,
    /// The entity's children, in the order in which they were spawned.
    pub children: Seq<int>,
    /// The transform that the renderer reads, if the entity has one.
    pub transform: Option<Transform<S>>,
    /// The transform in the plane, if the entity has one.
    pub transform2: Option<Transform2<S>>,
    /// The depth, if the entity has one.
    pub depth: Option<Depth<S>>,
}

impl<S> EntityView<S> {
    /// A new entity under `parent`: no children and no components.
    pub open spec fn bare(parent: Option<int>) -> EntityView<S> {
        EntityView {
            parent,
            children: Seq::empty(),
            transform: None,
            transform2: None,
            depth: None,
        }
    }
}

/// Whether the parent and child links of `w` describe a forest.
///
/// Every parent was spawned before its children, so no entity is its own
/// ancestor; an entity is listed among the children of its parent, once, and
/// of no other entity.
pub open spec fn wf_forest<S>(w: Seq<EntityView<S>>) -> bool {
    &&& forall|e: int|
        0 <= e < w.len() ==> match (#[trigger] w[e]).parent {
            Some(p) => 0 <= p < e && w[p].children.contains(e),
            None => true,
        }
    &&& forall|e: int, k: int|
        0 <= e < w.len() && 0 <= k < w[e].children.len() ==> {
            let c = #[trigger] w[e].children[k];
            e < c < w.len() && w[c].parent == Some(e)
        }
    &&& forall|e: int| 0 <= e < w.len() ==> (#[trigger] w[e]).children.no_duplicates()
}

struct Record<S> {
    parent: Option<usize>,
    children: Vec<usize>,
    transform: Option<Transform<S>>,
    transform2: Option<Transform2<S>>,
    depth: Option<Depth<S>>,
}

impl<S> Record<S> {
    spec fn view(&self) -> EntityView<S> {
        EntityView {
            parent: match self.parent {
                Some(p) => Some(p as int),
                None => None,
            },
            children: self.children@.map_values(|c: usize| c as int),
            transform: self.transform,
            transform2: self.transform2,
            depth: self.depth,
        }
    }
}

/// A store of entities.
///
/// Entities are only ever added, as roots or under an entity that is already
/// there, so the parent and child links always form a forest.
pub struct World<S> {
    records: Vec<Record<S>>,
}

impl<S> View for World<S> {
    type V = Seq<EntityView<S>>;

    closed spec fn view(&self) -> Seq<EntityView<S>> {
        self.records@.map_values(|r: Record<S>| r.view())
    }
}

impl<S: Scalar> World<S> {
    /// The invariant of the store: its links form a forest.
    pub open spec fn wf(&self) -> bool {
        wf_forest(self@)
    }

    /// A store without entities.
    pub fn new() -> (world: World<S>)
        ensures
            world.wf(),
            world@ == Seq::<EntityView<S>>::empty(),
    {
        let world = World { records: Vec::new() };
        assert(world@ =~= Seq::<EntityView<S>>::empty());
        world
    }

    /// The number of entities.
    pub fn len(&self) -> (n: usize)
        ensures
            n == self@.len(),
    {
        self.records.len()
    }

    /// Whether `entity` names an entity of this store.
    pub fn contains(&self, entity: Entity) -> (b: bool)
        ensures
            b == (entity.0 < self@.len()),
    {
        entity.0 < self.records.len()
    }

    /// Adds an entity without a parent and without components.
    pub fn spawn(&mut self) -> (entity: Entity)
        requires
            old(self).wf(),
        ensures
            final(self).wf(),
            entity.0 == old(self)@.len(),
            final(self)@ == old(self)@.push(EntityView::<S>::bare(None)),
    {
        let index: usize = self.records.len();
        self.records.push(
            Record {
                parent: None,
                children: Vec::new(),
                transform: None,
                transform2: None,
                depth: None,
            },
        );
        proof {
            assert(self.records@[index as int].view().children =~= Seq::<int>::empty());
            assert(self@ =~= old(self)@.push(EntityView::<S>::bare(None)));
        }
        Entity(index)
    }

    /// Adds an entity without components under `parent`.
    ///
    /// Returns `None`, and adds nothing, when `parent` is not in the store.
    pub fn spawn_child(&mut self, parent: Entity) -> (entity: Option<Entity>)
        requires
            old(self).wf(),
        ensures
            final(self).wf(),
            parent.0 < old(self)@.len() ==> entity == Some(Entity(old(self)@.len() as usize))
                && final(self)@ == old(self)@.update(
                parent.0 as int,
                EntityView {
                    children: old(self)@[parent.0 as int].children.push(old(self)@.len() as int),
                    ..old(self)@[parent.0 as int]
                },
            ).push(EntityView::<S>::bare(Some(parent.0 as int))),
            parent.0 >= old(self)@.len() ==> entity.is_none() && final(self)@ == old(self)@,
    {
        let index: usize = self.records.len();
        if parent.0 >= index {
            return None;
        }
        self.records[parent.0].children.push(index);
        self.records.push(
            Record {
                parent: Some(parent.0),
                children: Vec::new(),
                transform: None,
                transform2: None,
                depth: None,
            },
        );
        proof {
            let before = old(self)@;
            let p = parent.0 as int;
            let grown = EntityView { children: before[p].children.push(index as int), ..before[p] };
            let after = before.update(p, grown).push(EntityView::<S>::bare(Some(p)));
            assert(self.records@[index as int].view().children =~= Seq::<int>::empty());
            assert(self.records@[p].view().children =~= before[p].children.push(index as int));
            assert(self@ =~= after);
            assert(wf_forest(after)) by {
                assert forall|e: int| 0 <= e < after.len() implies match (#[trigger] after[e]).parent {
                    Some(q) => 0 <= q < e && after[q].children.contains(e),
                    None => true,
                } by {
                    if e == index {
                        assert(grown.children[before[p].children.len() as int] == e);
                    } else {
                        match before[e].parent {
                            Some(q) => {
                                let k = choose|k: int|
                                    0 <= k < before[q].children.len() && before[q].children[k] == e;
                                assert(after[q].children[k] == e);
                            },
                            None => {},
                        }
                    }
                }
                assert forall|e: int, k: int|
                    0 <= e < after.len() && 0 <= k < after[e].children.len() implies {
                    let c = #[trigger] after[e].children[k];
                    e < c < after.len() && after[c].parent == Some(e)
                } by {
                    if e == p && k == before[p].children.len() {
                    } else {
                        let c = before[e].children[k];
                        assert(e < c < before.len() && before[c].parent == Some(e));
                    }
                }
                assert forall|e: int| 0 <= e < after.len() implies (#[trigger] after[e]).children.no_duplicates() by {
                    if e == p {
                        assert forall|i: int, j: int|
                            0 <= i < grown.children.len() && 0 <= j < grown.children.len() && i
                                != j implies grown.children[i] != grown.children[j] by {
                            if i < before[p].children.len() {
                                let c = before[p].children[i];
                                assert(c < before.len());
                            }
                            if j < before[p].children.len() {
                                let c = before[p].children[j];
                                assert(c < before.len());
                            }
                        }
                    } else if e < index {
                        assert(before[e].children.no_duplicates());
                    }
                }
            }
        }
        Some(Entity(index))
    }

    /// The parent of `entity`; `None` for a root and for an entity that is
    /// not in the store.
    pub fn parent(&self, entity: Entity) -> (parent: Option<Entity>)
        ensures
            match parent {
                Some(p) => entity.0 < self@.len() && self@[entity.0 as int].parent == Some(
                    p.0 as int,
                ),
                None => entity.0 >= self@.len() || self@[entity.0 as int].parent.is_none(),
            },
    {
        if entity.0 < self.records.len() {
            match self.records[entity.0].parent {
                Some(p) => Some(Entity(p)),
                None => None,
            }
        } else {
            None
        }
    }

    /// The children of `entity`, oldest first; none for an entity that is not
    /// in the store.
    pub fn children(&self, entity: Entity) -> (children: Vec<Entity>)
        ensures
            children@.map_values(|c: Entity| c.0 as int) == if entity.0 < self@.len() {
                self@[entity.0 as int].children
            } else {
                Seq::empty()
            },
    {
        let mut children: Vec<Entity> = Vec::new();
        if entity.0 < self.records.len() {
            let record = &self.records[entity.0];
            let count: usize = record.children.len();
            let mut k: usize = 0;
            while k < count
                invariant
                    k <= count,
                    count == record.children@.len(),
                    children@.len() == k,
                    forall|i: int| 0 <= i < k ==> children@[i].0 == record.children@[i],
                decreases count - k,
            {
                children.push(Entity(record.children[k]));
                k += 1;
            }
            assert(children@.map_values(|c: Entity| c.0 as int) =~= self@[entity.0 as int].children);
        } else {
            assert(children@.map_values(|c: Entity| c.0 as int) =~= Seq::<int>::empty());
        }
        children
    }

    /// The entities without a parent, oldest first.
    pub fn roots(&self) -> (roots: Vec<Entity>)
        ensures
            forall|i: int, j: int| 0 <= i < j < roots@.len() ==> roots@[i].0 < roots@[j].0,
            forall|i: int|
                0 <= i < roots@.len() ==> (#[trigger] roots@[i]).0 < self@.len()
                    && self@[roots@[i].0 as int].parent.is_none(),
            forall|e: int|
                0 <= e < self@.len() && (#[trigger] self@[e]).parent.is_none()
                    ==> roots@.map_values(|r: Entity| r.0 as int).contains(e),
    {
        let mut roots: Vec<Entity> = Vec::new();
        let count: usize = self.records.len();
        let mut e: usize = 0;
        while e < count
            invariant
                e <= count,
                count == self.records@.len(),
                forall|i: int| 0 <= i < roots@.len() ==> (#[trigger] roots@[i]).0 < e,
                forall|i: int, j: int| 0 <= i < j < roots@.len() ==> roots@[i].0 < roots@[j].0,
                forall|i: int|
                    0 <= i < roots@.len() ==> self@[(#[trigger] roots@[i]).0 as int].parent.is_none(),
                forall|x: int|
                    0 <= x < e && (#[trigger] self@[x]).parent.is_none() ==> roots@.map_values(
                        |r: Entity| r.0 as int,
                    ).contains(x),
            decreases count - e,
        {
            if self.records[e].parent.is_none() {
                let ghost before = roots@;
                roots.push(Entity(e));
                proof {
                    let listed = roots@.map_values(|r: Entity| r.0 as int);
                    let listed_before = before.map_values(|r: Entity| r.0 as int);
                    assert(listed[before.len() as int] == e);
                    assert forall|x: int|
                        0 <= x < e + 1 && (#[trigger] self@[x]).parent.is_none() implies listed.contains(
                        x,
                    ) by {
                        if x < e {
                            let i = choose|i: int|
                                0 <= i < listed_before.len() && listed_before[i] == x;
                            assert(listed[i] == x);
                        }
                    }
                }
            }
            e += 1;
        }
        roots
    }

    /// The transform of `entity` that the renderer reads; `None` when the
    /// entity has none or is not in the store.
    pub fn transform(&self, entity: Entity) -> (transform: Option<Transform<S>>)
        ensures
            transform == if entity.0 < self@.len() {
                self@[entity.0 as int].transform
            } else {
                None
            },
    {
        if entity.0 < self.records.len() {
            self.records[entity.0].transform
        } else {
            None
        }
    }

    /// The transform in the plane of `entity`; `None` when the entity has
    /// none or is not in the store.
    pub fn transform2(&self, entity: Entity) -> (transform2: Option<Transform2<S>>)
        ensures
            transform2 == if entity.0 < self@.len() {
                self@[entity.0 as int].transform2
            } else {
                None
            },
    {
        if entity.0 < self.records.len() {
            self.records[entity.0].transform2
        } else {
            None
        }
    }

    /// The depth of `entity`; `None` when the entity has none or is not in
    /// the store.
    pub fn depth(&self, entity: Entity) -> (depth: Option<Depth<S>>)
        ensures
            depth == if entity.0 < self@.len() {
                self@[entity.0 as int].depth
            } else {
                None
            },
    {
        if entity.0 < self.records.len() {
            self.records[entity.0].depth
        } else {
            None
        }
    }

    /// Gives `entity` the transform `transform`, or takes its transform away
    /// with `None`.
    ///
    /// Returns whether the entity is in the store; when it is not, nothing
    /// changes.
    pub fn set_transform(&mut self, entity: Entity, transform: Option<Transform<S>>) -> (found: bool)
        ensures
            found == (entity.0 < old(self)@.len()),
            old(self).wf() ==> final(self).wf(),
            final(self)@ == if found {
                old(self)@.update(
                    entity.0 as int,
                    EntityView { transform, ..old(self)@[entity.0 as int] },
                )
            } else {
                old(self)@
            },
    {
        if entity.0 < self.records.len() {
            self.records[entity.0].transform = transform;
            assert(self@ =~= old(self)@.update(
                entity.0 as int,
                EntityView { transform, ..old(self)@[entity.0 as int] },
            ));
            true
        } else {
            false
        }
    }

    /// Gives `entity` the transform in the plane `transform2`, or takes its
    /// transform in the plane away with `None`.
    ///
    /// Returns whether the entity is in the store; when it is not, nothing
    /// changes.
    pub fn set_transform2(&mut self, entity: Entity, transform2: Option<Transform2<S>>) -> (found: bool)
        ensures
            found == (entity.0 < old(self)@.len()),
            old(self).wf() ==> final(self).wf(),
            final(self)@ == if found {
                old(self)@.update(
                    entity.0 as int,
                    EntityView { transform2, ..old(self)@[entity.0 as int] },
                )
            } else {
                old(self)@
            },
    {
        if entity.0 < self.records.len() {
            self.records[entity.0].transform2 = transform2;
            assert(self@ =~= old(self)@.update(
                entity.0 as int,
                EntityView { transform2, ..old(self)@[entity.0 as int] },
            ));
            true
        } else {
            false
        }
    }

    /// Gives `entity` the depth `depth`, or takes its depth away with `None`.
    ///
    /// Returns whether the entity is in the store; when it is not, nothing
    /// changes.
    pub fn set_depth(&mut self, entity: Entity, depth: Option<Depth<S>>) -> (found: bool)
        ensures
            found == (entity.0 < old(self)@.len()),
            old(self).wf() ==> final(self).wf(),
            final(self)@ == if found {
                old(self)@.update(entity.0 as int, EntityView { depth, ..old(self)@[entity.0 as int] })
            } else {
                old(self)@
            },
    {
        if entity.0 < self.records.len() {
            self.records[entity.0].depth = depth;
            assert(self@ =~= old(self)@.update(
                entity.0 as int,
                EntityView { depth, ..old(self)@[entity.0 as int] },
            ));
            true
        } else {
            false
        }
    }
}

} // verus!
