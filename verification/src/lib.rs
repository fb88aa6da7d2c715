//! A connect-four engine on a fixed 7 x 6 board: the grid with its gravity rule,
//! detection of lines of four, and the turn state machine that drives a game
//! between a human and a randomly playing computer opponent.

pub mod piece;
pub mod error;
pub mod grid;
pub mod grid_facts;
pub mod board;
pub mod lines;
pub mod game;
pub mod random;
pub mod input;
pub mod moves;
pub mod verdict;
pub mod laws;
