//! Rule engine of a five-letter word-guessing puzzle: a grid of tiles, the
//! scoring of each guessed letter, and the win/loss decision.

pub mod tile;
pub mod game;
pub mod word;
