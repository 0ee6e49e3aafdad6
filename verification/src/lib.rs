//! Conway's Game of Life on a fixed-size toroidal grid.
//!
//! The engine owns the grid representation, the wraparound
//! neighbour-counting rule, the per-generation transition, and the
//! multi-step driver that collects one snapshot per generation.
//! Image encoding and host-language bindings live outside the engine
//! and consume the plain 0/1 snapshots it produces.

pub mod cell;
pub mod driver;
pub mod grid;
pub mod render;

pub use cell::CellState;
pub use driver::get_status;
pub use grid::Field;
pub use grid::FieldError;
