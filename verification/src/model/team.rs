//! Teams.
use vstd::prelude::*;

use crate::clock::Timestamp;

verus! {

#[derive(Debug)]
pub struct RbTeam {
    pub id: i32,
    pub tname: String,
    pub pass: String,
    pub bio: String,
    pub locked: bool,
    pub ctime_at: Timestamp,
}

} // verus!
