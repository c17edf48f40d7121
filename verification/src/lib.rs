//! The rules of a puzzle-hunt server: gate expressions, answers, tickets, currencies, caches.
pub mod clock;
pub mod db;
pub mod error;
pub mod expr;
pub mod extractor;
pub mod game;
pub mod health;
pub mod ids;
pub mod json;
pub mod kv;
pub mod middleware;
pub mod model;
pub mod num;
pub mod schema;
pub mod text;
