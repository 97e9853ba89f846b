//! A minimal entity-component movement core for a 2D arcade game.
//!
//! The library keeps per-entity data (transform, speed, player tag) in a
//! sparse component store, spawns the single player entity from the viewport
//! dimensions, and advances the player horizontally once per fixed tick from
//! the sampled keyboard state. All coordinates are exact integers counted in
//! subunits of a world unit, so every contract states the resulting position
//! exactly.

pub mod config;
pub mod game;
pub mod store;
