//! Conway's Game of Life on a 5×5 toroidal grid, with the tick-driven
//! animation state that advances it and renders it for an LED matrix.
pub mod animation;
pub mod frame;
pub mod grid;
