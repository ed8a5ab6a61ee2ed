//! Transforms in the plane, with depth kept apart.
//!
//! An entity carries a [`Transform2`] and a [`Depth`]; once per step
//! [`transform2_propagate`] walks the entity forest and writes each entity's
//! [`Transform`] from them.

pub mod components;
pub mod laws;
pub mod propagate;
pub mod world;

pub use components::{Depth, Transform, Transform2, Vec2, Vec3};
pub use world::{wf_forest, Entity, EntityView, World};
pub use laws::{
    law_bare_entity_untouched, law_depth_adds_up, law_depth_kinds_agree_at_zero,
    law_exact_depth_at_root, law_exact_depth_is_absolute, law_identity_propagation,
    law_inherited_depth, law_propagate_idempotent, law_tree_independence, law_update_idempotent,
    law_whole_numbers_keep_exact_depth, lineage,
};
pub use propagate::{
    cumulative_below, cumulative_depth, in_subtree, propagated, propagated_entity,
    propagated_transform, resolved_z, transform2_propagate, update_transform2,
};
