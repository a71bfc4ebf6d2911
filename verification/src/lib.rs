//! A two-dimensional cellular automaton in the family of Conway's Game of
//! Life: a rectangular board of cells that advances generation by generation
//! under a birth/survival rule, serially or split over a pool of workers.

pub mod args;
pub mod arith;
pub mod board;
pub mod census;
pub mod cli;
pub mod grid;
pub mod gui;
pub mod laws;
pub mod parallel;
pub mod reading;
pub mod round_trip;
pub mod text;

pub use args::{alignment_padding, parse_padding, Alignment};
pub use board::Board;
pub use cli::{cli_step, make_board, run, Args, CliStep, Launch, CLEAR};
pub use grid::Grid;
pub use text::ParseBoardErr;
