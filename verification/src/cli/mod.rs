//! Display logic of the command-line runner.

pub mod status_board;
