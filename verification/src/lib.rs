//! Conway's Game of Life on a fixed-size toroidal grid.
//!
//! The [`universe::Universe`] owns the grid and exposes construction, a
//! one-generation advance (`tick`) and text rendering. The mathematical
//! model of the grid and of the transition rule lives in [`rules`]; the
//! general facts that hold of the engine are proved in [`laws`].

pub mod laws;
pub mod rules;
pub mod universe;
