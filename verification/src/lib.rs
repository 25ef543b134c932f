//! A verified Connect-Four engine.
//!
//! Board state is a bit-packed 64-bit word: seven columns of seven bits each
//! (six playable rows plus one spacer bit per column, so that shift-based
//! win detection and gravity arithmetic never cross a column boundary).
//! The `bitboard` module provides the board primitives, `model` their
//! cell-level reading and the laws tying the two, `bot` the heuristic
//! evaluator and the alpha-beta search, and `game_difficulty`, `game_result`
//! and `states` the small decision types a front end drives the engine with.

pub mod bitboard;
pub mod bits;
pub mod bot;
pub mod game_difficulty;
pub mod game_result;
pub mod model;
pub mod states;
