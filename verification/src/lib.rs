//! Conway's Game of Life on a toroidal grid, with machine-checked contracts.
//!
//! A [`Universe`] owns a `width` by `height` grid of [`Cell`]s stored in
//! row-major order. Every edge wraps around to the opposite one, so each cell
//! has exactly eight neighbour positions. [`Universe::tick`] replaces the whole
//! grid by its next generation; [`Universe::render`] gives a textual snapshot.
//!
//! The mathematical model of a universe is [`Grid`]: its functions say what
//! each operation computes, and the theorems in [`laws`] and [`patterns`] are
//! stated over it.

pub mod cell;
pub mod grid;
pub mod laws;
pub mod patterns;
pub mod torus;
pub mod universe;

pub use cell::Cell;
pub use grid::Grid;
pub use universe::{Universe, UniverseError};
