//! Where the systems of this crate run.
//!
//! Nothing here is guarded by a lock: the systems are correct because of the
//! order in which the host runs them. This module states that order, for the
//! host to follow and for tests to check.

use crate::fixed_timestep::base_set::FixedSet;
use vstd::prelude::*;

verus! {

/// A part of a frame. A frame runs its parts in the order of
/// [`Slot::rank`]; the fixed phases run, as a whole, zero or more times.
#[derive(Clone, Copy, Debug, PartialEq, Eq, Hash, Structural)]
pub enum Slot {
    /// Early in the frame, once the devices have been sampled.
    PreUpdate,
    /// A phase of the fixed step.
    Fixed(FixedSet),
    /// Late in the frame, once the systems of the frame loop have run.
    PostUpdate,
    /// The very end of the frame.
    Last,
}

impl Slot {
    /// The place of the slot within a frame, counted from 0.
    pub open spec fn rank(self) -> nat {
        match self {
            Slot::PreUpdate => 0,
            Slot::Fixed(set) => 1 + set.rank(),
            Slot::PostUpdate => 7,
            Slot::Last => 8,
        }
    }

    /// The place of the slot within a frame, counted from 0.
    pub fn index(self) -> (index: u8)
        ensures
            index == self.rank(),
    {
        match self {
            Slot::PreUpdate => 0,
            Slot::Fixed(set) => 1 + set.index(),
            Slot::PostUpdate => 7,
            Slot::Last => 8,
        }
    }

    /// Whether the slot belongs to the fixed step.
    pub fn is_fixed(self) -> (fixed: bool)
        ensures
            fixed == (self is Fixed),
    {
        match self {
            Slot::Fixed(_) => true,
            _ => false,
        }
    }
}

/// A system that the host runs.
#[derive(Clone, Copy, Debug, PartialEq, Eq, Hash, Structural)]
pub enum System {
    /// Takes the edges of the frame into the fixed-rate input state.
    FixedInputUpdate,
    /// Marks that a fixed step has run.
    FixedEventsClearFlag,
    /// Writes the transforms within a fixed step.
    FixedTransform2Propagate,
    /// Reads the transforms within a fixed step: the step of the host that
    /// computes what the renderer and the physics see.
    FixedTransformPropagate,
    /// Forgets the input edges at the end of a fixed step.
    FixedInputClear,
    /// Writes the transforms once per frame.
    Transform2Propagate,
    /// Reads the transforms once per frame: the step of the host that
    /// computes what the renderer sees.
    TransformPropagate,
    /// Empties the event queues at the end of the frame.
    FixedEventsClear,
}

impl System {
    /// The slot in which the system runs.
    pub open spec fn spec_slot(self) -> Slot {
        match self {
            System::FixedInputUpdate => Slot::PreUpdate,
            System::FixedEventsClearFlag => Slot::Fixed(FixedSet::PreUpdate),
            System::FixedTransform2Propagate => Slot::Fixed(FixedSet::PostUpdate),
            System::FixedTransformPropagate => Slot::Fixed(FixedSet::PostUpdate),
            System::FixedInputClear => Slot::Fixed(FixedSet::PostUpdate),
            System::Transform2Propagate => Slot::PostUpdate,
            System::TransformPropagate => Slot::PostUpdate,
            System::FixedEventsClear => Slot::Last,
        }
    }

    /// Whether this system must have run before `later` starts, where both
    /// run in the same slot.
    pub open spec fn spec_precedes(self, later: System) -> bool {
        ||| self == System::FixedTransform2Propagate && later == System::FixedTransformPropagate
        ||| self == System::Transform2Propagate && later == System::TransformPropagate
    }

    /// The slot in which the system runs.
    #[verifier::when_used_as_spec(spec_slot)]
    pub fn slot(self) -> (slot: Slot)
        ensures
            slot == self.spec_slot(),
    {
        match self {
            System::FixedInputUpdate => Slot::PreUpdate,
            System::FixedEventsClearFlag => Slot::Fixed(FixedSet::PreUpdate),
            System::FixedTransform2Propagate => Slot::Fixed(FixedSet::PostUpdate),
            System::FixedTransformPropagate => Slot::Fixed(FixedSet::PostUpdate),
            System::FixedInputClear => Slot::Fixed(FixedSet::PostUpdate),
            System::Transform2Propagate => Slot::PostUpdate,
            System::TransformPropagate => Slot::PostUpdate,
            System::FixedEventsClear => Slot::Last,
        }
    }

    /// Whether this system must have run before `later` starts, where both
    /// run in the same slot.
    #[verifier::when_used_as_spec(spec_precedes)]
    pub fn precedes(self, later: System) -> (first: bool)
        ensures
            first == self.spec_precedes(later),
    {
        match (self, later) {
            (System::FixedTransform2Propagate, System::FixedTransformPropagate) => true,
            (System::Transform2Propagate, System::TransformPropagate) => true,
            _ => false,
        }
    }

    /// Whether this system has always run before `later` starts, within one
    /// frame and, for two systems of the fixed step, within one step.
    pub fn runs_before(self, later: System) -> (before: bool)
        ensures
            before == (self.slot().rank() < later.slot().rank() || self.precedes(later)),
    {
        self.slot().index() < later.slot().index() || self.precedes(later)
    }

    /// Every system, in an order in which a frame with one fixed step may
    /// run them.
    pub fn order() -> (systems: Vec<System>)
        ensures
            systems@ == seq![
                System::FixedInputUpdate,
                System::FixedEventsClearFlag,
                System::FixedTransform2Propagate,
                System::FixedTransformPropagate,
                System::FixedInputClear,
                System::Transform2Propagate,
                System::TransformPropagate,
                System::FixedEventsClear,
            ],
    {
        let mut systems: Vec<System> = Vec::new();
        systems.push(System::FixedInputUpdate);
        systems.push(System::FixedEventsClearFlag);
        systems.push(System::FixedTransform2Propagate);
        systems.push(System::FixedTransformPropagate);
        systems.push(System::FixedInputClear);
        systems.push(System::Transform2Propagate);
        systems.push(System::TransformPropagate);
        systems.push(System::FixedEventsClear);
        assert(systems@ =~= seq![
            System::FixedInputUpdate,
            System::FixedEventsClearFlag,
            System::FixedTransform2Propagate,
            System::FixedTransformPropagate,
            System::FixedInputClear,
            System::Transform2Propagate,
            System::TransformPropagate,
            System::FixedEventsClear,
        ]);
        systems
    }
}

/// The phase in which the simulation logic of a fixed step runs.
pub open spec fn gameplay() -> Slot {
    Slot::Fixed(FixedSet::Update)
}

/// The input state is built before a fixed step reads it and is cleared
/// after the simulation logic of the step: the edges of the frame reach every
/// fixed step that follows, and a step forgets them only when its logic has
/// seen them.
pub proof fn law_input_order()
    ensures
        forall|set: FixedSet|
            System::FixedInputUpdate.slot().rank() < #[trigger] Slot::Fixed(set).rank(),
        gameplay().rank() < System::FixedInputClear.slot().rank(),
{
    assert forall|set: FixedSet|
        System::FixedInputUpdate.slot().rank() < #[trigger] Slot::Fixed(set).rank() by {}
}

/// The flag is raised in the first phase of a fixed step, and the queues are
/// emptied after every other system of the frame, those of the fixed step
/// among them.
pub proof fn law_events_order()
    ensures
        forall|set: FixedSet|
            System::FixedEventsClearFlag.slot().rank() <= #[trigger] Slot::Fixed(set).rank(),
        forall|system: System|
            system != System::FixedEventsClear ==> (#[trigger] system.slot()).rank()
                < System::FixedEventsClear.slot().rank(),
{
    assert forall|set: FixedSet|
        System::FixedEventsClearFlag.slot().rank() <= #[trigger] Slot::Fixed(set).rank() by {}
    assert forall|system: System| system != System::FixedEventsClear implies (
    #[trigger] system.slot()).rank() < System::FixedEventsClear.slot().rank() by {}
}

/// The transforms are written after the simulation logic has changed what
/// they are written from, and before they are read, in the fixed step as in
/// the frame loop.
pub proof fn law_propagate_order()
    ensures
        gameplay().rank() < System::FixedTransform2Propagate.slot().rank(),
        System::FixedTransform2Propagate.precedes(System::FixedTransformPropagate),
        System::FixedTransform2Propagate.slot() == System::FixedTransformPropagate.slot(),
        forall|set: FixedSet|
            #[trigger] Slot::Fixed(set).rank() < System::Transform2Propagate.slot().rank(),
        System::Transform2Propagate.precedes(System::TransformPropagate),
        System::Transform2Propagate.slot() == System::TransformPropagate.slot(),
{
    assert forall|set: FixedSet|
        #[trigger] Slot::Fixed(set).rank() < System::Transform2Propagate.slot().rank() by {}
}

/// The listed order is one that the host may follow: no system in the list
/// has to run before a system that is listed ahead of it.
pub proof fn law_order_is_consistent(systems: Seq<System>, i: int, j: int)
    requires
        systems == seq![
            System::FixedInputUpdate,
            System::FixedEventsClearFlag,
            System::FixedTransform2Propagate,
            System::FixedTransformPropagate,
            System::FixedInputClear,
            System::Transform2Propagate,
            System::TransformPropagate,
            System::FixedEventsClear,
        ],
        0 <= i < j < systems.len(),
    ensures
        systems[i].slot().rank() <= systems[j].slot().rank(),
        !systems[j].precedes(systems[i]),
{
}

} // verus!
