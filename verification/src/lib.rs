//! Verified core of a controller-agnostic 2D world simulation: the body
//! registry and step bookkeeping of a simulation run, the uniform-grid
//! spatial index over walls, the rules for map files and map generation,
//! and the playback control of an interactive viewer.

pub mod body;
pub mod error;
pub mod grid;
pub mod map;
pub mod playback;
