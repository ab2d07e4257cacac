//! Simulation core of a two-player Pong match: boxes and their overlap test,
//! ball motion and bounce rules, paddle control, an entity registry with
//! generation-checked handles, and the scoring and round-reset state machine.
//!
//! Coordinates are integers in milli-pixels, time is in milliseconds, speeds
//! are in pixels per second and angles in microdegrees.
pub mod geometry;
pub mod side;
pub mod motion;
pub mod paddle;
pub mod arena;
pub mod world;
pub mod laws;
mod chance;
