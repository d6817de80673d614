//! Rule engine of a two-board card game: a hand of four cards pushes the
//! polarity of four worlds on the active board; a world brought back to zero
//! polarity can be claimed, after which the boards swap.

pub mod board;
pub mod controller;
pub mod deck;
pub mod error;
pub mod hand;
pub mod laws;
pub mod ledger;
mod random;
pub mod registry;
