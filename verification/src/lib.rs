//! Core simulation library for a rolling-sphere terrain game: a deterministic
//! procedural height field, chunked terrain meshes, a rolling-body physics
//! integrator, ballistic projectile targeting, and a follow-camera blend.
//!
//! All world quantities are fixed-point: an `i64` holding the value scaled by
//! `fixed::FX_ONE` (65536), so one world unit is 65536 ticks.

pub mod camera;
pub mod chunks;
pub mod fixed;
pub mod mesh;
pub mod player;
pub mod projectile;
pub mod terrain;
pub mod vec3;
