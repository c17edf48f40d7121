//! What is decided on records that were read, and about records to be written.
pub mod activity;
pub mod anmt;
pub mod asset;
pub mod audience;
pub mod board;
pub mod cache;
pub mod call_log;
pub mod content;
pub mod event_log;
pub mod feature;
pub mod frontend;
pub mod game;
pub mod notification;
pub mod patch;
pub mod puzzle;
pub mod puzzle_backend;
pub mod puzzle_store;
pub mod ranking;
pub mod release;
pub mod round;
pub mod solve_stats;
pub mod states;
pub mod system_settings;
pub mod team;
pub mod ticket;
pub mod user;

use vstd::prelude::*;
use vstd::string::*;

verus! {

/// The password to connect to the database with: the configured one, unless it is empty.
pub fn pool_password(configured: &Option<String>) -> (r: Option<&str>)
    ensures
        match r {
            Some(p) => configured matches Some(s) && s@ == p@ && s@.len() > 0,
            None => configured matches Some(s) ==> s@.len() == 0,
        },
{
    match configured {
        Some(s) => if s.as_str().is_empty() {
            None
        } else {
            Some(s.as_str())
        },
        None => None,
    }
}

} // verus!
