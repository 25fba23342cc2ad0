//! A small 2D jetpack physics toy: a player-steered "Jetman" flies over
//! terrain, tractor-beams an item and carries it to a teleporter.
//!
//! All simulation state is held in fixed-point integers with a scale of
//! 1000 raw units per world unit, so that every step of the pipeline has
//! an exact mathematical description.

pub mod fixed;
pub mod physics;
pub mod terrain;
pub mod ui;
pub mod world;
