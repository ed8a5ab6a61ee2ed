//! The phases of a fixed step.

use vstd::prelude::*;

verus! {

/// A phase of the fixed-rate schedule. Every system of that schedule runs in
/// one of them; the phases run in the order in which they are listed here.
#[derive(Clone, Copy, Debug, PartialEq, Eq, Hash, Structural)]
pub enum FixedSet {
    /// Runs before [`FixedSet::Update`].
    PreUpdate,
    /// The point right after `PreUpdate` at which queued changes to the
    /// entity store are applied.
    PreUpdateFlush,
    /// Holds most of the simulation logic. A system that names no phase runs
    /// here.
    Update,
    /// The point right after `Update` at which queued changes to the entity
    /// store are applied.
    UpdateFlush,
    /// Runs after [`FixedSet::Update`].
    PostUpdate,
    /// The point right after `PostUpdate` at which queued changes to the
    /// entity store are applied.
    PostUpdateFlush,
}

impl FixedSet {
    /// The place of the phase within a fixed step, counted from 0.
    pub open spec fn rank(self) -> nat {
        match self {
            FixedSet::PreUpdate => 0,
            FixedSet::PreUpdateFlush => 1,
            FixedSet::Update => 2,
            FixedSet::UpdateFlush => 3,
            FixedSet::PostUpdate => 4,
            FixedSet::PostUpdateFlush => 5,
        }
    }

    /// Whether the phase is one of the three points at which queued changes
    /// are applied.
    pub open spec fn flushes(self) -> bool {
        self == FixedSet::PreUpdateFlush || self == FixedSet::UpdateFlush || self
            == FixedSet::PostUpdateFlush
    }

    /// The place of the phase within a fixed step, counted from 0.
    pub fn index(self) -> (index: u8)
        ensures
            index == self.rank(),
    {
        match self {
            FixedSet::PreUpdate => 0,
            FixedSet::PreUpdateFlush => 1,
            FixedSet::Update => 2,
            FixedSet::UpdateFlush => 3,
            FixedSet::PostUpdate => 4,
            FixedSet::PostUpdateFlush => 5,
        }
    }

    /// The phase in which a system runs that names none.
    pub fn default_set() -> (set: FixedSet)
        ensures
            set == FixedSet::Update,
    {
        FixedSet::Update
    }

    /// The phase that runs right after this one; `None` after the last.
    pub fn next(self) -> (next: Option<FixedSet>)
        ensures
            self.rank() < 5 ==> next.is_some() && next.unwrap().rank() == self.rank() + 1,
            self.rank() == 5 ==> next.is_none(),
    {
        match self {
            FixedSet::PreUpdate => Some(FixedSet::PreUpdateFlush),
            FixedSet::PreUpdateFlush => Some(FixedSet::Update),
            FixedSet::Update => Some(FixedSet::UpdateFlush),
            FixedSet::UpdateFlush => Some(FixedSet::PostUpdate),
            FixedSet::PostUpdate => Some(FixedSet::PostUpdateFlush),
            FixedSet::PostUpdateFlush => None,
        }
    }

    /// Whether this phase runs before `other`.
    pub fn runs_before(self, other: FixedSet) -> (before: bool)
        ensures
            before == (self.rank() < other.rank()),
    {
        self.index() < other.index()
    }

    /// Whether queued changes to the entity store are applied in this phase.
    pub fn is_flush(self) -> (flush: bool)
        ensures
            flush == self.flushes(),
    {
        match self {
            FixedSet::PreUpdateFlush | FixedSet::UpdateFlush | FixedSet::PostUpdateFlush => true,
            _ => false,
        }
    }

    /// The constraints that put the phases in order: each pair says that its
    /// first phase runs before its second, and the pairs link every phase to
    /// the one that follows it.
    pub fn chain() -> (pairs: Vec<(FixedSet, FixedSet)>)
        ensures
            pairs@.len() == 5,
            forall|i: int|
                0 <= i < 5 ==> (#[trigger] pairs@[i]).0.rank() == i && pairs@[i].1.rank() == i + 1,
    {
        let mut pairs: Vec<(FixedSet, FixedSet)> = Vec::new();
        pairs.push((FixedSet::PreUpdate, FixedSet::PreUpdateFlush));
        pairs.push((FixedSet::PreUpdateFlush, FixedSet::Update));
        pairs.push((FixedSet::Update, FixedSet::UpdateFlush));
        pairs.push((FixedSet::UpdateFlush, FixedSet::PostUpdate));
        pairs.push((FixedSet::PostUpdate, FixedSet::PostUpdateFlush));
        pairs
    }

    /// The three phases at which queued changes are applied, in the order in
    /// which they run.
    pub fn flush_sets() -> (sets: Vec<FixedSet>)
        ensures
            sets@ == seq![
                FixedSet::PreUpdateFlush,
                FixedSet::UpdateFlush,
                FixedSet::PostUpdateFlush,
            ],
    {
        let mut sets: Vec<FixedSet> = Vec::new();
        sets.push(FixedSet::PreUpdateFlush);
        sets.push(FixedSet::UpdateFlush);
        sets.push(FixedSet::PostUpdateFlush);
        assert(sets@ =~= seq![
            FixedSet::PreUpdateFlush,
            FixedSet::UpdateFlush,
            FixedSet::PostUpdateFlush,
        ]);
        sets
    }
}

/// The rank names the phase: two phases with the same rank are the same.
pub proof fn law_rank_names_phase(a: FixedSet, b: FixedSet)
    ensures
        a.rank() == b.rank() <==> a == b,
        a.rank() <= 5,
{
}

/// Each of the three working phases is followed at once by its flush point,
/// so what a phase queues is applied before the next working phase runs.
pub proof fn law_flush_follows_phase(set: FixedSet)
    ensures
        !set.flushes() ==> exists|flush: FixedSet|
            flush.flushes() && #[trigger] flush.rank() == set.rank() + 1,
{
    match set {
        FixedSet::PreUpdate => {
            assert(FixedSet::PreUpdateFlush.flushes() && FixedSet::PreUpdateFlush.rank() == 1);
        },
        FixedSet::Update => {
            assert(FixedSet::UpdateFlush.flushes() && FixedSet::UpdateFlush.rank() == 3);
        },
        FixedSet::PostUpdate => {
            assert(FixedSet::PostUpdateFlush.flushes() && FixedSet::PostUpdateFlush.rank() == 5);
        },
        _ => {},
    }
}

} // verus!
