//! Keeps track of the assets that another asset has loaded.
//!
//! Nothing here is automatic: whoever loads a sub asset for an asset says so
//! with [`SubAssets::add`], and takes it back with [`SubAssets::remove`].

use std::collections::{HashMap, HashSet};
use std::hash::Hash;
use vstd::prelude::*;
use vstd::std_specs::hash::{obeys_key_model, spec_hash_keys_iter, spec_keys_iter};
use vstd::std_specs::iter::IteratorSpec;

verus! {

broadcast use vstd::std_specs::hash::group_hash_axioms;

/// The sub assets of `parent` in `links`, a set of pairs of an asset and one
/// of its sub assets.
pub open spec fn kids<K>(links: Set<(K, K)>, parent: K) -> Set<K> {
    Set::new(|child: K| links.contains((parent, child)))
}

/// Whether `rank` falls along every link: whether it gives every sub asset a
/// smaller number than its parent.
pub open spec fn falls_along<K>(links: Set<(K, K)>, rank: spec_fn(K) -> nat) -> bool {
    forall|parent: K, child: K| #[trigger] links.contains((parent, child)) ==> rank(child) < rank(parent)
}

/// Whether no asset is, through any number of links, a sub asset of itself.
pub open spec fn acyclic<K>(links: Set<(K, K)>) -> bool {
    exists|rank: spec_fn(K) -> nat| falls_along(links, rank)
}

/// A rank that falls along every link of `links`, where there is one.
pub closed spec fn some_rank<K>(links: Set<(K, K)>) -> spec_fn(K) -> nat {
    choose|rank: spec_fn(K) -> nat| falls_along(links, rank)
}

/// Where nothing is linked, nothing is linked in a cycle.
pub proof fn law_no_links_no_cycle<K>()
    ensures
        acyclic(Set::<(K, K)>::empty()),
{
    let rank = |handle: K| 0nat;
    assert(falls_along(Set::<(K, K)>::empty(), rank));
}

/// Taking links away makes no cycle: what is left of links without a cycle,
/// after any number of calls of [`SubAssets::remove`],
/// [`SubAssets::remove_all`] and [`SubAssets::clear`], is without a cycle.
pub proof fn law_fewer_links_no_cycle<K>(links: Set<(K, K)>, fewer: Set<(K, K)>)
    requires
        acyclic(links),
        fewer.subset_of(links),
    ensures
        acyclic(fewer),
{
    let rank = choose|rank: spec_fn(K) -> nat| falls_along(links, rank);
    assert(falls_along(fewer, rank));
}

/// One way to walk over what lies below an asset: the order in which its
/// sub assets are taken, and for each of them the way to walk over what lies
/// below it.
pub struct Walk<K> {
    /// The sub assets, in the order in which they are taken.
    pub order: Seq<K>,
    /// For each of the sub assets, the walk below it.
    pub below: Seq<Walk<K>>,
}

/// What `walk` has listed when it is through with the first `n` sub assets:
/// for each of them in turn, what the walk below it lists, and then the sub
/// asset itself.
pub open spec fn walked<K>(walk: Walk<K>, n: nat) -> Seq<K>
    decreases walk, n,
{
    if n == 0 || n > walk.order.len() || n > walk.below.len() {
        Seq::empty()
    } else {
        walked(walk, (n - 1) as nat) + walked(walk.below[n - 1], walk.below[n - 1].order.len())
            + seq![walk.order[n - 1]]
    }
}

/// Whether `walk` is a walk over all that lies below `parent`: it takes the
/// sub assets of `parent`, each once, and below each of them it is such a
/// walk again.
pub open spec fn follows<K>(links: Set<(K, K)>, parent: K, walk: Walk<K>) -> bool
    decreases walk,
{
    &&& walk.order.no_duplicates()
    &&& walk.order.to_set() == kids(links, parent)
    &&& walk.below.len() == walk.order.len()
    &&& forall|i: int|
        0 <= i < walk.order.len() ==> follows(links, walk.order[i], #[trigger] walk.below[i])
}

/// Whether `out` lists all that lies below `parent` as some walk does: the
/// sub assets of `parent` come once each, in some order, and each comes
/// right after such a listing of all that lies below it.
pub open spec fn walk_of<K>(links: Set<(K, K)>, parent: K, out: Seq<K>) -> bool {
    exists|walk: Walk<K>| #[trigger] follows(links, parent, walk) && out == walked(walk, walk.order.len())
}

/// What a walk has listed after `n` sub assets does not depend on the walks
/// below the sub assets that follow.
proof fn lemma_walked_prefix<K>(order: Seq<K>, below: Seq<Walk<K>>, longer: Seq<Walk<K>>, n: nat)
    requires
        n <= below.len() <= longer.len(),
        forall|i: int| 0 <= i < below.len() ==> below[i] == longer[i],
    ensures
        walked(Walk { order, below }, n) == walked(Walk { order, below: longer }, n),
    decreases n,
{
    if n > 0 {
        lemma_walked_prefix(order, below, longer, (n - 1) as nat);
    }
}

/// The handles in `set`, once each, in the order in which the set hands them
/// out.
fn listed<K: Copy + Eq + Hash>(set: &HashSet<K>) -> (out: Vec<K>)
    requires
        obeys_key_model::<K>(),
    ensures
        out@.to_set() == set@,
        out@.no_duplicates(),
{
    let mut out: Vec<K> = Vec::new();
    let ghost all = spec_hash_keys_iter(set).remaining();
    for key in iter: set.iter()
        invariant
            iter.seq() == all,
            out@ == all.take(iter.index() as int).unref(),
    {
        out.push(*key);
        assert(out@ =~= all.take(iter.index() + 1).unref());
    }
    proof {
        assert(all.take(all.len() as int) =~= all);
        assert forall|i: int, j: int| 0 <= i < out@.len() && 0 <= j < out@.len() && i != j implies out@[i]
            != out@[j] by {
            assert(all[i] != all[j]);
        }
    }
    out
}

/// Sub asset tracker for complex asset types: which asset has loaded which.
///
/// `K` is the type of the handles by which assets are named. The methods
/// ask that `K` obeys the key model: that equal handles hash alike, as the
/// hash collections of the standard library expect of their keys.
#[derive(Clone, Debug)]
pub struct SubAssets<K> {
    map: HashMap<K, HashSet<K>>,
}

impl<K: Copy + Eq + Hash> Default for SubAssets<K> {
    fn default() -> (sub_assets: SubAssets<K>)
        ensures
            sub_assets@ == Set::<(K, K)>::empty(),
    {
        SubAssets::new()
    }
}

impl<K> View for SubAssets<K> {
    type V = Set<(K, K)>;

    /// The pairs of an asset and one of its sub assets.
    closed spec fn view(&self) -> Set<(K, K)> {
        Set::new(|link: (K, K)| self.map@.contains_key(link.0) && self.map@[link.0]@.contains(link.1))
    }
}

impl<K: Copy + Eq + Hash> SubAssets<K> {
    /// A tracker in which no asset has a sub asset.
    pub fn new() -> (sub_assets: SubAssets<K>)
        ensures
            sub_assets@ == Set::<(K, K)>::empty(),
    {
        let sub_assets = SubAssets { map: HashMap::new() };
        assert(sub_assets@ =~= Set::<(K, K)>::empty());
        sub_assets
    }

    /// The parents that have an entry, once each.
    fn parents(&self) -> (out: Vec<K>)
        requires
            obeys_key_model::<K>(),
        ensures
            out@.to_set() == self.map@.dom(),
            out@.no_duplicates(),
    {
        let mut out: Vec<K> = Vec::new();
        let ghost all = spec_keys_iter(&self.map).remaining();
        for key in iter: self.map.keys()
            invariant
                iter.seq() == all,
                out@ == all.take(iter.index() as int).unref(),
        {
            out.push(*key);
            assert(out@ =~= all.take(iter.index() + 1).unref());
        }
        proof {
            assert(all.take(all.len() as int) =~= all);
            assert forall|i: int, j: int|
                0 <= i < out@.len() && 0 <= j < out@.len() && i != j implies out@[i] != out@[j] by {
                assert(all[i] != all[j]);
            }
        }
        out
    }

    /// Add a sub asset to the parent asset. Returns whether the pair is new.
    pub fn add(&mut self, parent: K, child: K) -> (added: bool)
        requires
            obeys_key_model::<K>(),
        ensures
            added == !old(self)@.contains((parent, child)),
            final(self)@ == old(self)@.insert((parent, child)),
    {
        let mut set = match self.map.remove(&parent) {
            Some(set) => set,
            None => HashSet::new(),
        };
        let added = set.insert(child);
        self.map.insert(parent, set);
        assert(self@ =~= old(self)@.insert((parent, child)));
        added
    }

    /// Remove a sub asset from the parent asset. Returns whether the pair was
    /// there.
    pub fn remove(&mut self, parent: K, child: K) -> (removed: bool)
        requires
            obeys_key_model::<K>(),
        ensures
            removed == old(self)@.contains((parent, child)),
            final(self)@ == old(self)@.remove((parent, child)),
    {
        let removed = match self.map.remove(&parent) {
            Some(set) => {
                let mut set = set;
                let removed = set.remove(&child);
                let ghost rest = set@;
                if !set.is_empty() {
                    self.map.insert(parent, set);
                }
                proof {
                    assert forall|link: (K, K)| self@.contains(link) <==> old(self)@.remove(
                        (parent, child),
                    ).contains(link) by {
                        if link.0 == parent {
                            assert(rest.contains(link.1) <==> old(self).map@[parent]@.contains(link.1)
                                && link.1 != child);
                            if rest.is_empty() {
                                assert(!rest.contains(link.1));
                            }
                        }
                    }
                }
                removed
            },
            None => false,
        };
        assert(self@ =~= old(self)@.remove((parent, child)));
        removed
    }

    /// Remove the sub asset from every parent asset. Returns whether any
    /// parent had it.
    ///
    /// More expensive than [`SubAssets::remove`], since it goes over all
    /// parents, but useful if the parent asset isn't known.
    pub fn remove_all(&mut self, child: K) -> (removed: bool)
        requires
            obeys_key_model::<K>(),
        ensures
            removed == exists|parent: K| old(self)@.contains((parent, child)),
            final(self)@ == old(self)@.filter(|link: (K, K)| link.1 != child),
    {
        let mut removed = false;
        let parents = self.parents();
        let ghost before = self@;
        let mut i: usize = 0;
        while i < parents.len()
            invariant
                obeys_key_model::<K>(),
                i <= parents.len(),
                before == old(self)@,
                parents@.to_set() == old(self).map@.dom(),
                parents@.no_duplicates(),
                removed == exists|j: int| 0 <= j < i && before.contains((#[trigger] parents@[j], child)),
                self@ == before.filter(
                    |link: (K, K)|
                        !(link.1 == child && exists|j: int| 0 <= j < i && #[trigger] parents@[j] == link.0),
                ),
            decreases parents.len() - i,
        {
            let parent = parents[i];
            let ghost round = self@;
            let here = self.remove(parent, child);
            if here {
                removed = true;
            }
            proof {
                assert(here == before.contains((parent, child))) by {
                    if before.contains((parent, child)) {
                        if exists|j: int| 0 <= j < i && #[trigger] parents@[j] == parent {
                        }
                    }
                    assert(round.contains((parent, child)) ==> before.contains((parent, child)));
                }
                assert(self@ =~= before.filter(
                    |link: (K, K)|
                        !(link.1 == child && exists|j: int|
                            0 <= j < i + 1 && #[trigger] parents@[j] == link.0),
                )) by {
                    assert forall|link: (K, K)| self@.contains(link) <==> before.filter(
                        |link: (K, K)|
                            !(link.1 == child && exists|j: int|
                                0 <= j < i + 1 && #[trigger] parents@[j] == link.0),
                    ).contains(link) by {
                        if link == (parent, child) {
                            assert(parents@[i as int] == link.0);
                        } else if link.1 == child {
                            if exists|j: int| 0 <= j < i + 1 && #[trigger] parents@[j] == link.0 {
                                let j = choose|j: int| 0 <= j < i + 1 && #[trigger] parents@[j] == link.0;
                                assert(j < i);
                            }
                        }
                    }
                }
            }
            i += 1;
        }
        proof {
            assert forall|link: (K, K)| before.contains(link) && link.1 == child implies exists|j: int|
                0 <= j < parents@.len() && #[trigger] parents@[j] == link.0 by {
                assert(old(self).map@.dom().contains(link.0));
                assert(parents@.to_set().contains(link.0));
                assert(parents@.contains(link.0));
            }
            assert(self@ =~= before.filter(|link: (K, K)| link.1 != child));
            if exists|parent: K| before.contains((parent, child)) {
                let parent = choose|parent: K| before.contains((parent, child));
                let j = choose|j: int| 0 <= j < parents@.len() && #[trigger] parents@[j] == parent;
                assert(before.contains((parents@[j], child)));
            }
        }
        removed
    }

    /// Clear all sub assets in a parent.
    pub fn clear(&mut self, parent: K)
        requires
            obeys_key_model::<K>(),
        ensures
            final(self)@ == old(self)@.filter(|link: (K, K)| link.0 != parent),
    {
        self.map.remove(&parent);
        assert(self@ =~= old(self)@.filter(|link: (K, K)| link.0 != parent));
    }
    /// All the assets below the given asset: its sub assets, theirs, and so
    /// on. Every sub asset comes right after what lies below it; an asset
    /// that is reached on several ways comes once for each.
    ///
    /// The links must be free of cycles.
    pub fn children(&self, parent: K) -> (children: Vec<K>)
        requires
            obeys_key_model::<K>(),
            acyclic(self@),
        ensures
            walk_of(self@, parent, children@),
        decreases some_rank(self@)(parent),
    {
        let mut children: Vec<K> = Vec::new();
        let order = match self.map.get(&parent) {
            Some(set) => listed(set),
            None => Vec::new(),
        };
        assert(order@.to_set() =~= kids(self@, parent));
        let ghost mut below: Seq<Walk<K>> = Seq::empty();
        let mut i: usize = 0;
        while i < order.len()
            invariant
                obeys_key_model::<K>(),
                acyclic(self@),
                i <= order.len(),
                order@.to_set() == kids(self@, parent),
                order@.no_duplicates(),
                below.len() == i,
                children@ == walked(Walk { order: order@, below }, i as nat),
                forall|j: int| 0 <= j < i ==> follows(self@, order@[j], #[trigger] below[j]),
            decreases order.len() - i,
        {
            let child = order[i];
            proof {
                assert(order@.to_set().contains(child));
                assert(self@.contains((parent, child)));
                assert(falls_along(self@, some_rank(self@)));
            }
            let mut listing = self.children(child);
            proof {
                let walk = choose|walk: Walk<K>| #[trigger]
                    follows(self@, child, walk) && listing@ == walked(walk, walk.order.len());
                let longer = below.push(walk);
                lemma_walked_prefix(order@, below, longer, i as nat);
                assert forall|j: int| 0 <= j < i + 1 implies follows(
                    self@,
                    order@[j],
                    #[trigger] longer[j],
                ) by {
                    if j < i {
                        assert(longer[j] == below[j]);
                    }
                }
                below = longer;
            }
            children.append(&mut listing);
            children.push(child);
            i += 1;
        }
        proof {
            let walk = Walk { order: order@, below };
            assert(follows(self@, parent, walk));
        }
        children
    }

    /// The handles whose load states make up the load state of an asset
    /// together with what lies below it: the assets below `handle`, as
    /// [`SubAssets::children`] gives them, and then `handle` itself.
    ///
    /// The links must be free of cycles.
    pub fn load_state_handles(&self, handle: K) -> (all_handles: Vec<K>)
        requires
            obeys_key_model::<K>(),
            acyclic(self@),
        ensures
            all_handles@.len() > 0,
            all_handles@.last() == handle,
            walk_of(self@, handle, all_handles@.drop_last()),
    {
        let mut all_handles = self.children(handle);
        let ghost below = all_handles@;
        all_handles.push(handle);
        assert(all_handles@.drop_last() =~= below);
        all_handles
    }

    /// The handles whose load states make up the load state of a group of
    /// assets together with what lies below them: for each of `handles` in
    /// turn, the assets below it and then the handle itself.
    ///
    /// The links must be free of cycles.
    pub fn group_load_state_handles(&self, handles: &Vec<K>) -> (all_handles: Vec<K>)
        requires
            obeys_key_model::<K>(),
            acyclic(self@),
        ensures
            exists|below: Seq<Walk<K>>|
                {
                    &&& below.len() == handles@.len()
                    &&& all_handles@ == #[trigger] walked(
                        Walk { order: handles@, below },
                        handles@.len(),
                    )
                    &&& forall|i: int|
                        0 <= i < handles@.len() ==> follows(self@, handles@[i], #[trigger] below[i])
                },
    {
        let mut all_handles: Vec<K> = Vec::new();
        let ghost mut below: Seq<Walk<K>> = Seq::empty();
        let mut i: usize = 0;
        while i < handles.len()
            invariant
                obeys_key_model::<K>(),
                acyclic(self@),
                i <= handles.len(),
                below.len() == i,
                all_handles@ == walked(Walk { order: handles@, below }, i as nat),
                forall|j: int| 0 <= j < i ==> follows(self@, handles@[j], #[trigger] below[j]),
            decreases handles.len() - i,
        {
            let parent = handles[i];
            let mut listing = self.children(parent);
            proof {
                let walk = choose|walk: Walk<K>| #[trigger]
                    follows(self@, parent, walk) && listing@ == walked(walk, walk.order.len());
                let longer = below.push(walk);
                lemma_walked_prefix(handles@, below, longer, i as nat);
                assert forall|j: int| 0 <= j < i + 1 implies follows(
                    self@,
                    handles@[j],
                    #[trigger] longer[j],
                ) by {
                    if j < i {
                        assert(longer[j] == below[j]);
                    }
                }
                below = longer;
            }
            all_handles.append(&mut listing);
            all_handles.push(parent);
            i += 1;
        }
        all_handles
    }

}

} // verus!
