//! Playing a game.
pub mod judge;
