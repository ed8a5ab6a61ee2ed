//! Makes the fixed-rate schedule usable beside the frame loop.
//!
//! - Events are not dropped (see [`fixed_events_clear`]).
//! - Inputs are neither dropped nor counted twice (see [`FixedInput`]).
//! - The fixed step has ordered phases (see [`FixedSet`]).

pub mod base_set;
pub mod events;
pub mod input;

pub use base_set::{law_flush_follows_phase, law_rank_names_phase, FixedSet};
pub use events::{
    fixed_events_clear, fixed_events_clear_flag, law_event_window, pending_after_steps,
    queue_after_frame, EventClearFlag, Events,
};
pub use input::{
    fixed_input_clear, fixed_input_record, fixed_input_update, held_codes, law_edges_persist,
    law_held_until_released, law_no_edge_without_report, law_press_is_recorded,
    law_step_consumes_edges, pressed_edges, released_edges, FixedInput, InputView,
};
