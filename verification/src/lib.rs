//! A memory (card-matching) game: the deck and board model and the state
//! machine that a driver calls into, with every rule stated as a contract.

pub mod board_view;
pub mod console;
pub mod controller;
pub mod input;
pub mod model;
