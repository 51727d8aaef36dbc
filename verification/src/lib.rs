//! Procedural map generator for a 2D tile-based platformer.
//!
//! Given a list of waypoints on a rectangular grid and a bundle of tunable
//! parameters, the generator carves a meandering tunnel of empty tiles
//! through a solid field, decorates it with freeze margins, platforms,
//! start/finish rooms and shortcut passages.  Generation is deterministic:
//! for a fixed seed and fixed parameters the produced grid is a pure
//! function of the inputs.

pub mod config;
pub mod dist;
pub mod dt;
pub mod error;
pub mod generator;
pub mod kernel;
pub mod map_grid;
pub mod mutations;
pub mod mutators;
pub mod position;
pub mod post_processing;
pub mod random;
pub mod tile;
pub mod walker;
