//! The game's data: deck, shuffle, board, and the turn state machine.

pub mod deck;
pub mod shuffle;
pub mod field;
pub mod game;
pub mod laws;
