//! A small entity-driving core: a component store holding per-entity positions
//! and movement targets, a movement system that advances every position toward
//! its target by a fixed step each frame, an instance-batch builder that
//! snapshots positions for one instanced draw call, a two-context recording
//! pipeline that double-buffers GPU command recording, a two-phase frame
//! scheduler, and a frame clock with rolling statistics.
//!
//! All geometry is held in fixed-point coordinates (thousandths of a world
//! unit), so every arithmetic step of the simulation is exact and verified.

pub mod clock;
pub mod components;
pub mod geometry;
pub mod math;
pub mod render;
pub mod sched;
pub mod store;
pub mod systems;
pub mod world;
