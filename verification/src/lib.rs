//! Core simulation of a small lane-defence arcade game: a bounded tile grid,
//! timer-driven spawners, zombie and bullet movement with despawn rules,
//! proximity collisions with scoring, and a clamped player controller.
//!
//! All world coordinates, speeds and timers are fixed-point integers in
//! hundredths of a world unit (or of a second, for timers); the rendering
//! layer converts at the boundary.

pub mod entities;
pub mod grid;
pub mod laws;
pub mod score;
pub mod sim;
pub mod state;
