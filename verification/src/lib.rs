//! Simulation core of a real-time multiplayer 2D physics sandbox.
//!
//! Players move a cursor-like avatar through a bounded arena, pick up and
//! drag movable shapes, and observe continuous physics. This crate holds the
//! authoritative per-tick logic: world bootstrap from a declarative map
//! description, per-player kinematic movement, the grab/release interaction
//! protocol, the fixed-step tick sequencing, and extraction of a
//! network-ready snapshot.
//!
//! The rigid-body engine itself (integration, collision detection,
//! constraint solving, spatial queries) is an external capability: a host
//! binds this crate to such an engine, feeds its observations into
//! [`world::Game::tick`] and mirrors the returned actions back into the
//! engine. All quantities here are fixed-point integers: coordinates,
//! displacements and half-extents in thousandths of a world unit, rotations
//! in thousandths of a radian, velocities in thousandths of a unit per
//! second.

pub mod world;
mod seqtools;
pub mod map;
pub mod builder;
pub mod tick;
pub mod snapshot;
pub mod laws;
