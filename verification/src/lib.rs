//! Simulation core of a falling-block puzzle game: the grid, the falling
//! piece, the resting pile, and the rules that move, rotate, lock and clear.
//!
//! The board is ten columns wide and twenty-four rows high; the top four
//! rows are hidden, pieces spawn inside them, and a block that locks there
//! ends the game.  A front end draws the blocks, polls the keys and the
//! clock, and calls in here; nothing in this crate draws, plays or waits.
//!
//! - [`tetrus`] holds the data and the operations on a board.
//! - [`game`] plays a session frame by frame on top of it.
//! - [`grid`] holds the questions the rules ask of cells and sets of blocks.
//! - [`board`] is the mathematical model that the contracts speak of.
//! - [`laws`] and [`counting`] state and prove what holds of the rules.
//! - [`constants`] and [`color`] hold the parameters and the piece catalog.
//! - [`random`] is the source of randomness behind piece selection.

pub mod board;
pub mod color;
pub mod constants;
pub mod counting;
pub mod game;
pub mod grid;
pub mod laws;
pub mod random;
pub mod tetrus;
