//! A bounded 2D multi-agent simulation core: an agent store partitioned by
//! archetype, a physics pass (integration, boundary clamping, pairwise
//! collision resolution, spatial indexing) and a three-stage heuristic
//! optimization pipeline, advanced once per discrete tick.
//!
//! All scalar quantities (coordinates, velocities, energy, rates) are held
//! in fixed-point micro-units: one unit of the simulated world is
//! `1_000_000` micro-units.
pub mod mathutil;
pub mod randutil;
pub mod agents;
pub mod simulation;
pub mod optimization;
pub mod engine;
pub mod collections;
pub mod timing;
pub mod strutil;
pub mod laws;

