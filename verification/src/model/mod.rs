//! Records of users, teams and games.
pub mod anmt;
pub mod game;
pub mod team;
pub mod user;
