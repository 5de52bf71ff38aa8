//! A four-by-four drop-piece board game engine: gravity placement, line
//! detection in four directions, and a seeded random fill.

pub mod tile;
pub mod grid;
pub mod outcome;
pub mod render;
pub mod board;
pub mod random;
pub mod service;
pub mod laws;
