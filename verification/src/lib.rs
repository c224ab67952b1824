//! A verified tic-tac-toe engine: a 3x3 board with a positional evaluator,
//! and a bounded-depth minimax search with alpha-beta pruning that picks the
//! automated side's move.

pub mod board;
pub mod search;
