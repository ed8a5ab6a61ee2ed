//! Building blocks for 2D games that run a fixed-rate simulation beside a
//! variable-rate frame loop.

pub mod fixed_timestep;
pub mod scalar;
pub mod schedule;
pub mod sub_assets;
pub mod transform2;
