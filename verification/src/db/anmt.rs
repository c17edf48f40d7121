//! Announcements, and the puzzles that they are about.
use vstd::prelude::*;

use crate::clock::Timestamp;
use crate::error::{fault, RbInternalError};
use crate::game::judge;
use crate::game::judge::copy_text;
use crate::model::game::RbContentType;
use crate::text;
use crate::text::trim;

verus! {

/// A puzzle that an announcement is about.
#[derive(Debug)]
pub struct AnnouncementPuzzleData {
    pub id: i32,
    pub slug: Option<String>,
    pub title: String,
    pub round_id: i32,
    pub round_slug: Option<String>,
    pub is_round_puzzle: bool,
}

/// An announcement, as it is shown.
#[derive(Debug)]
pub struct RbAnnouncementShowData {
    pub id: i32,
    pub title: String,
    pub content: String,
    pub content_type: RbContentType,
    pub is_pinned: bool,
    pub game_id: Option<i32>,
    pub puzzles: Vec<AnnouncementPuzzleData>,
    pub utime_at: Timestamp,
}

/// An announcement, as administrators see it.
#[derive(Debug)]
pub struct AdminAnnouncementData {
    pub id: i32,
    pub title: String,
    pub content: String,
    pub content_type: RbContentType,
    pub is_pinned: bool,
    pub is_shown: bool,
    pub game_id: Option<i32>,
    pub puzzles: Vec<AnnouncementPuzzleData>,
    pub ctime_at: Timestamp,
    pub utime_at: Timestamp,
}

/// An announcement, as it is written.
#[derive(Debug)]
pub struct AnnouncementWriteData {
    pub title: String,
    pub content: String,
    pub content_type: RbContentType,
    pub is_pinned: bool,
    pub is_shown: bool,
    pub game_id: Option<i32>,
    pub puzzle_ids: Vec<i32>,
}

impl AnnouncementWriteData {
    /// The title as it is stored, without white space around it.
    pub fn stored_title(&self) -> (r: String)
        ensures
            r@ == text::trimmed(self.title@),
    {
        trim(self.title.as_str())
    }
}

/// A puzzle of an announcement, as it is stored.
#[derive(Debug)]
pub struct AnnouncementPuzzleRow {
    pub announcement_id: i32,
    pub id: i32,
    pub slug: Option<String>,
    pub title: String,
    pub round_id: i32,
    pub round_slug: Option<String>,
    pub is_round_puzzle: bool,
}

/// What is told of a puzzle.
pub struct PuzzleMention {
    pub id: i32,
    pub slug: Option<Seq<char>>,
    pub title: Seq<char>,
    pub round_id: i32,
    pub round_slug: Option<Seq<char>>,
    pub is_round_puzzle: bool,
}

impl AnnouncementPuzzleRow {
    pub open spec fn mention(self) -> PuzzleMention {
        PuzzleMention {
            id: self.id,
            slug: judge::text_in(self.slug),
            title: self.title@,
            round_id: self.round_id,
            round_slug: judge::text_in(self.round_slug),
            is_round_puzzle: self.is_round_puzzle,
        }
    }
}

impl AnnouncementPuzzleData {
    pub open spec fn mention(self) -> PuzzleMention {
        PuzzleMention {
            id: self.id,
            slug: judge::text_in(self.slug),
            title: self.title@,
            round_id: self.round_id,
            round_slug: judge::text_in(self.round_slug),
            is_round_puzzle: self.is_round_puzzle,
        }
    }
}

/// What a list of puzzles tells.
pub open spec fn mentions(puzzles: Seq<AnnouncementPuzzleData>) -> Seq<PuzzleMention> {
    puzzles.map_values(|p: AnnouncementPuzzleData| p.mention())
}

/// What rows tell of the puzzles of one announcement, in the order of the rows.
pub open spec fn mentions_for(rows: Seq<AnnouncementPuzzleRow>, announcement_id: i32) -> Seq<
    PuzzleMention,
>
    decreases rows.len(),
{
    if rows.len() == 0 {
        Seq::empty()
    } else if rows.last().announcement_id == announcement_id {
        mentions_for(rows.drop_last(), announcement_id).push(rows.last().mention())
    } else {
        mentions_for(rows.drop_last(), announcement_id)
    }
}

/// The puzzles of one announcement.
pub fn load_puzzles(rows: &Vec<AnnouncementPuzzleRow>, announcement_id: i32) -> (r: Vec<
    AnnouncementPuzzleData,
>)
    ensures
        mentions(r@) == mentions_for(rows@, announcement_id),
{
    let mut puzzles: Vec<AnnouncementPuzzleData> = Vec::new();
    let mut i: usize = 0;
    proof {
        assert(mentions(puzzles@) =~= mentions_for(rows@.take(0), announcement_id));
    }
    while i < rows.len()
        invariant
            i <= rows@.len(),
            mentions(puzzles@) == mentions_for(rows@.take(i as int), announcement_id),
        decreases rows@.len() - i,
    {
        let row = &rows[i];
        proof {
            assert(rows@.take(i + 1).drop_last() =~= rows@.take(i as int));
            assert(rows@.take(i + 1).last() == *row);
        }
        if row.announcement_id == announcement_id {
            let ghost before = mentions(puzzles@);
            puzzles.push(
                AnnouncementPuzzleData {
                    id: row.id,
                    slug: copy_text(&row.slug),
                    title: row.title.clone(),
                    round_id: row.round_id,
                    round_slug: copy_text(&row.round_slug),
                    is_round_puzzle: row.is_round_puzzle,
                },
            );
            assert(mentions(puzzles@) =~= before.push(row.mention()));
        }
        i += 1;
    }
    assert(rows@.take(i as int) =~= rows@);
    puzzles
}

/// An announcement, as it is stored.
#[derive(Debug)]
pub struct AnnouncementShowRow {
    pub id: i32,
    pub title: String,
    pub content: String,
    pub content_type: RbContentType,
    pub is_pinned: bool,
    pub game_id: Option<i32>,
    pub utime_at: Timestamp,
}

/// An announcement, as it is stored for administrators.
#[derive(Debug)]
pub struct AdminAnnouncementRow {
    pub id: i32,
    pub title: String,
    pub content: String,
    pub content_type: RbContentType,
    pub is_pinned: bool,
    pub is_shown: bool,
    pub game_id: Option<i32>,
    pub ctime_at: Timestamp,
    pub utime_at: Timestamp,
}

/// Whether an announcement is shown as it is stored, with its puzzles.
pub open spec fn shows_announcement(
    shown: RbAnnouncementShowData,
    row: AnnouncementShowRow,
    puzzles: Seq<AnnouncementPuzzleRow>,
) -> bool {
    &&& shown.id == row.id
    &&& shown.title == row.title
    &&& shown.content == row.content
    &&& shown.content_type == row.content_type
    &&& shown.is_pinned == row.is_pinned
    &&& shown.game_id == row.game_id
    &&& shown.utime_at == row.utime_at
    &&& mentions(shown.puzzles@) == mentions_for(puzzles, row.id)
}

/// Whether administrators see an announcement as it is stored, with its puzzles.
pub open spec fn shows_admin_announcement(
    shown: AdminAnnouncementData,
    row: AdminAnnouncementRow,
    puzzles: Seq<AnnouncementPuzzleRow>,
) -> bool {
    &&& shown.id == row.id
    &&& shown.title == row.title
    &&& shown.content == row.content
    &&& shown.content_type == row.content_type
    &&& shown.is_pinned == row.is_pinned
    &&& shown.is_shown == row.is_shown
    &&& shown.game_id == row.game_id
    &&& shown.ctime_at == row.ctime_at
    &&& shown.utime_at == row.utime_at
    &&& mentions(shown.puzzles@) == mentions_for(puzzles, row.id)
}

/// Announcements, each with its puzzles. Each announcement stands in the rows once.
pub fn attach_show_puzzles(rows: Vec<AnnouncementShowRow>, puzzles: &Vec<AnnouncementPuzzleRow>) -> (r:
    Vec<RbAnnouncementShowData>)
    ensures
        r@.len() == rows@.len(),
        forall|i: int|
            0 <= i < rows@.len() ==> shows_announcement(#[trigger] r@[i], rows@[i], puzzles@),
{
    let mut shown: Vec<RbAnnouncementShowData> = Vec::new();
    for row in it: rows
        invariant
            it.seq() == rows@,
            shown@.len() == it.index(),
            forall|i: int|
                0 <= i < shown@.len() ==> shows_announcement(
                    #[trigger] shown@[i],
                    rows@[i],
                    puzzles@,
                ),
    {
        let attached = load_puzzles(puzzles, row.id);
        shown.push(
            RbAnnouncementShowData {
                id: row.id,
                title: row.title,
                content: row.content,
                content_type: row.content_type,
                is_pinned: row.is_pinned,
                game_id: row.game_id,
                puzzles: attached,
                utime_at: row.utime_at,
            },
        );
    }
    shown
}

/// Announcements for administrators, each with its puzzles. Each announcement stands in the rows
/// once.
pub fn attach_admin_puzzles(
    rows: Vec<AdminAnnouncementRow>,
    puzzles: &Vec<AnnouncementPuzzleRow>,
) -> (r: Vec<AdminAnnouncementData>)
    ensures
        r@.len() == rows@.len(),
        forall|i: int|
            0 <= i < rows@.len() ==> shows_admin_announcement(#[trigger] r@[i], rows@[i], puzzles@),
{
    let mut shown: Vec<AdminAnnouncementData> = Vec::new();
    for row in it: rows
        invariant
            it.seq() == rows@,
            shown@.len() == it.index(),
            forall|i: int|
                0 <= i < shown@.len() ==> shows_admin_announcement(
                    #[trigger] shown@[i],
                    rows@[i],
                    puzzles@,
                ),
    {
        let attached = load_puzzles(puzzles, row.id);
        shown.push(
            AdminAnnouncementData {
                id: row.id,
                title: row.title,
                content: row.content,
                content_type: row.content_type,
                is_pinned: row.is_pinned,
                is_shown: row.is_shown,
                game_id: row.game_id,
                puzzles: attached,
                ctime_at: row.ctime_at,
                utime_at: row.utime_at,
            },
        );
    }
    shown
}

/// The announcement that has just been written: it must be there.
pub fn admin_create(found: Option<AdminAnnouncementData>) -> (r: Result<
    AdminAnnouncementData,
    RbInternalError,
>)
    ensures
        match found {
            Some(data) => r == Ok::<_, RbInternalError>(data),
            None => r matches Err(e) && e.text() == "Created announcement not found"@,
        },
{
    match found {
        Some(data) => Ok(data),
        None => Err(fault("Created announcement not found")),
    }
}

/// A puzzle is mentioned with what is stored of it.
pub proof fn mentions_tell_what_is_stored(row: AnnouncementPuzzleRow, data: AnnouncementPuzzleData)
    ensures
        row.mention() == data.mention() <==> row.id == data.id && row.title@ == data.title@
            && row.round_id == data.round_id && row.is_round_puzzle == data.is_round_puzzle && (
        row.slug is Some <==> data.slug is Some) && (row.slug is Some ==> row.slug->0@
            == data.slug->0@) && (row.round_slug is Some <==> data.round_slug is Some) && (
        row.round_slug is Some ==> row.round_slug->0@ == data.round_slug->0@),
        row.mention().id == row.id,
        row.mention().title == row.title@,
        row.mention().round_id == row.round_id,
{
}

/// An announcement mentions the puzzles that belong to it, in their order, and no others.
pub proof fn announcements_mention_their_puzzles(rows: Seq<AnnouncementPuzzleRow>, row: AnnouncementPuzzleRow, announcement_id: i32)
    ensures
        mentions_for(Seq::empty(), announcement_id).len() == 0,
        ({
            let before = mentions_for(rows, announcement_id);
            let after = mentions_for(rows.push(row), announcement_id);
            let counts = row.announcement_id == announcement_id;
            &&& counts ==> after == before.push(row.mention())
            &&& !counts ==> after == before
        }),
{
    assert(rows.push(row).drop_last() =~= rows);
}

/// An announcement is shown as it is stored, with the puzzles that belong to it.
pub proof fn announcements_are_shown_as_stored(
    shown: RbAnnouncementShowData,
    row: AnnouncementShowRow,
    told: AdminAnnouncementData,
    stored: AdminAnnouncementRow,
    puzzles: Seq<AnnouncementPuzzleRow>,
    i: int,
)
    requires
        shows_announcement(shown, row, puzzles),
        shows_admin_announcement(told, stored, puzzles),
    ensures
        shown.id == row.id,
        shown.title@ == row.title@,
        shown.content@ == row.content@,
        shown.content_type == row.content_type,
        shown.is_pinned == row.is_pinned,
        shown.game_id == row.game_id,
        shown.utime_at == row.utime_at,
        shown.puzzles@.len() == mentions_for(puzzles, row.id).len(),
        0 <= i < shown.puzzles@.len() ==> shown.puzzles@[i].mention() == mentions_for(
            puzzles,
            row.id,
        )[i],
        told.id == stored.id,
        told.title@ == stored.title@,
        told.content@ == stored.content@,
        told.content_type == stored.content_type,
        told.is_pinned == stored.is_pinned,
        told.is_shown == stored.is_shown,
        told.game_id == stored.game_id,
        told.ctime_at == stored.ctime_at,
        told.utime_at == stored.utime_at,
        told.puzzles@.len() == mentions_for(puzzles, stored.id).len(),
        0 <= i < told.puzzles@.len() ==> told.puzzles@[i].mention() == mentions_for(
            puzzles,
            stored.id,
        )[i],
{
    assert(mentions(shown.puzzles@).len() == shown.puzzles@.len());
    assert(mentions(told.puzzles@).len() == told.puzzles@.len());
    if 0 <= i < shown.puzzles@.len() {
        assert(mentions(shown.puzzles@)[i] == shown.puzzles@[i].mention());
    }
    if 0 <= i < told.puzzles@.len() {
        assert(mentions(told.puzzles@)[i] == told.puzzles@[i].mention());
    }
}

} // verus!
