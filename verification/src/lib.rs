//! A fixed-timestep simulation of "concepts" moving through a one-dimensional
//! depth field under buoyancy, drag, thermal and standing-wave forces, with
//! threshold-triggered state transitions (freezing, turbulence, evaporation,
//! mineralization, tectonic shifts) and two analog-computation experiments
//! built on the same force model.
//!
//! All physical quantities are fixed-point numbers: an `i64` holding the value
//! scaled by [`fixed::SCALE`] (one million), so `0.3` is stored as `300_000`.

pub mod commands;
pub mod concept;
pub mod consensus_reactor;
pub mod continent;
pub mod core_truth;
pub mod events;
pub mod fixed;
pub mod fluid;
mod ids;
pub mod ore;
pub mod standing_wave;
pub mod text;
pub mod traits;
