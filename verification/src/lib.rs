//! Core of a bounded, non-toroidal Game of Life simulation.
//!
//! The crate provides the grid of cells, the rule that advances one
//! generation, and the affine mapping between grid indices and a centered
//! visual surface used to place cells and to resolve pointer clicks.
pub mod cell;
pub mod grid;
pub mod index;
pub mod mapper;
pub mod sim;
