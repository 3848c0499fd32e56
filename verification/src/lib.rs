//! Conway's Game of Life on a finite, non-wrapping grid.
//!
//! A [`grid::Grid`] owns its cells in row-major order, fixes every cell's
//! neighbourhood once at construction and advances one generation per call
//! of [`grid::Grid::update`].

pub mod cell;
pub mod topology;
pub mod board;
pub mod census;
pub mod parallel;
pub mod grid;
pub mod laws;
pub mod patterns;
