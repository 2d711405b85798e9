//! A falling-sand cellular automaton: a rectangular world of tiles, each holding
//! one material, advanced tick by tick under per-material movement rules.
//!
//! Executable code is stated against a mathematical model of the world: a
//! sequence of columns, each a sequence of materials (see [`grid`]).

pub mod tile;
pub mod grid;
pub mod rng;
pub mod rules;
pub mod step;
pub mod laws;
pub mod world;
pub mod brush;
