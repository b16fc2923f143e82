//! Conway's Game of Life on a square grid of fixed size, with edges: a cell
//! on an edge has fewer neighbours than a cell inside.
//!
//! [`grid::Grid`] holds one generation; [`grid::Grid::update`] replaces it by
//! the next one. What a generation is and how the next one follows from it is
//! defined over [`rule::GridView`], the mathematical model that every
//! contract of the crate speaks of. [`moore`] relates that model, which
//! goes by the index of a cell, to rows and columns, and [`laws`] states
//! what holds of every grid.

pub mod grid;
pub mod laws;
pub mod moore;
mod parallel;
pub mod rule;
