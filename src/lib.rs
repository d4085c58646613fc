//! Conway's Game of Life on a toroidal grid.
//!
//! `rules` holds the mathematical model of a generation and the laws that
//! hold of it; `world` holds the executable simulation, proved against it.

pub mod rules;
pub mod world;
