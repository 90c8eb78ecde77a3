//! Conway's Game of Life on a torus: a fixed-size board of cells whose edges
//! wrap around, the rule that takes one generation to the next, and a textual
//! picture of the board.

pub mod board;
pub mod cell;
pub mod grid;
pub mod patterns;
pub mod random;
