//! Conway's Game of Life on a fixed-size, non-wrapping grid of boolean cells.
//!
//! The grid is seeded at random and advanced one generation at a time; a cell
//! survives with two or three alive neighbors and is born with exactly three.
//! Positions beyond the boundary have no cells, so edge and corner cells see
//! fewer than eight neighbors.

pub mod grid;
pub mod laws;
