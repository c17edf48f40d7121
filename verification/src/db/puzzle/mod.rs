//! Puzzles: opening them, answering them, and their hints.
pub mod admin;
pub mod backend;
pub mod hint;
pub mod progress;
pub mod staff;
pub mod submit;
pub mod timing;
pub mod unlock;
pub mod view;
