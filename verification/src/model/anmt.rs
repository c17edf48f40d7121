//! Announcements.
use vstd::prelude::*;

use crate::clock::Timestamp;
use crate::model::game::RbContentType;

verus! {

#[derive(Debug)]
pub struct RbAnnouncement {
    pub id: i32,
    pub title: String,
    pub content: String,
    pub content_type: RbContentType,
    pub is_pinned: bool,
    pub is_shown: bool,
    pub game_id: Option<i32>,
    pub puzzle_id: Option<i32>,
    pub ctime_at: Timestamp,
    pub utime_at: Timestamp,
}

} // verus!
