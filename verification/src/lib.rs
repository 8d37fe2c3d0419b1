//! Conway's Game of Life on a fixed-size toroidal grid.
//!
//! The grid is a flat, row-major buffer of [`cell::Cell`] values owned by a
//! [`universe::Universe`]. One call of [`universe::Universe::tick`] replaces the
//! whole buffer by the next generation, computed from the previous one only.
//! [`grid::Grid`] is the mathematical model that the contracts speak of, and
//! [`display::Display`] projects a universe to text.

pub mod cell;
pub mod grid;
pub mod universe;
pub mod display;
pub mod patterns;
