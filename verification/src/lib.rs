//! A grid arcade game in which a ship dodges waves of falling enemies.
//!
//! The entities of a round live in a `hecs::World`. This crate holds the
//! per-frame simulation over that world, the draw list of a frame and the
//! round / game-over state machine, each with a contract over a mathematical
//! model of the world: a map from entity handles to attribute records.

pub mod components;
pub mod store;
pub mod text;
pub mod round;
pub mod render;
pub mod controller;
