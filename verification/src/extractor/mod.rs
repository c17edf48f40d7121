//! What is taken out of a request.
pub mod auth;
