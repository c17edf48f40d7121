//! Who reads an announcement.
use vstd::prelude::*;

use crate::clock::Timestamp;
use crate::db::anmt;
use crate::db::anmt::{
    attach_show_puzzles, AnnouncementPuzzleRow, AnnouncementShowRow, RbAnnouncementShowData,
};

verus! {

/// An announcement, and whether it is shown at all.
#[derive(Debug)]
pub struct AnnouncementListRow {
    pub row: AnnouncementShowRow,
    pub is_shown: bool,
}

/// A puzzle that an announcement is about, and how it stands to a team.
#[derive(Debug, Clone, Copy, PartialEq, Eq, Structural)]
pub struct AnnouncementLink {
    pub announcement_id: i32,
    pub puzzle_id: i32,
    /// When the phase that the puzzle is released with comes, if there is one.
    pub phase_release_at: Option<Timestamp>,
    /// The number of the puzzle's state for the team, if the team has the puzzle.
    pub state: Option<i16>,
}

impl AnnouncementLink {
    /// Whether a team knows the puzzle: its phase has come, and it is open to the team.
    pub open spec fn is_known(self, now: Timestamp) -> bool {
        &&& self.phase_release_at matches Some(at) && at <= now
        &&& self.state matches Some(state) && state >= 0
    }
}

/// Who asks for announcements.
#[derive(Debug, Clone, Copy, PartialEq, Eq, Structural)]
pub enum Audience {
    /// Everyone who looks at a game.
    Public { game_id: i32 },
    /// A team of a game.
    Team { game_id: i32 },
    /// A team of a game that looks at a puzzle.
    TeamPuzzle { game_id: i32, puzzle_id: i32 },
}

/// Whether an announcement is about some puzzle.
pub open spec fn is_linked(links: Seq<AnnouncementLink>, announcement_id: i32) -> bool {
    exists|i: int| 0 <= i < links.len() && (#[trigger] links[i]).announcement_id == announcement_id
}

/// Whether an announcement is about a puzzle that the team knows.
pub open spec fn is_known_to(
    links: Seq<AnnouncementLink>,
    announcement_id: i32,
    now: Timestamp,
) -> bool {
    exists|i: int|
        0 <= i < links.len() && (#[trigger] links[i]).announcement_id == announcement_id
            && links[i].is_known(now)
}

/// Whether an announcement is about a given puzzle.
pub open spec fn is_about(
    links: Seq<AnnouncementLink>,
    announcement_id: i32,
    puzzle_id: i32,
) -> bool {
    exists|i: int|
        0 <= i < links.len() && (#[trigger] links[i]).announcement_id == announcement_id
            && links[i].puzzle_id == puzzle_id
}

impl Audience {
    /// Whether the audience reads an announcement. Those of no game are for every game; one about
    /// puzzles is for teams that know one of them.
    pub open spec fn reads(
        self,
        announcement: AnnouncementListRow,
        links: Seq<AnnouncementLink>,
        now: Timestamp,
    ) -> bool {
        let row = announcement.row;
        &&& announcement.is_shown
        &&& match self {
            Audience::Public { game_id } => (row.game_id is None || row.game_id == Some(game_id))
                && !is_linked(links, row.id),
            Audience::Team { game_id } => (row.game_id is None || row.game_id == Some(game_id)) && (
            !is_linked(links, row.id) || is_known_to(links, row.id, now)),
            Audience::TeamPuzzle { game_id, puzzle_id } => row.game_id == Some(game_id) && is_about(
                links,
                row.id,
                puzzle_id,
            ),
        }
    }

    fn accepts(
        &self,
        announcement: &AnnouncementListRow,
        links: &Vec<AnnouncementLink>,
        now: Timestamp,
    ) -> (r: bool)
        ensures
            r == self.reads(*announcement, links@, now),
    {
        let id = announcement.row.id;
        let mut linked = false;
        let mut known = false;
        let mut i: usize = 0;
        while i < links.len()
            invariant
                i <= links@.len(),
                linked <==> exists|k: int|
                    0 <= k < i && (#[trigger] links@[k]).announcement_id == id,
                known <==> exists|k: int|
                    0 <= k < i && (#[trigger] links@[k]).announcement_id == id
                        && links@[k].is_known(now),
            decreases links@.len() - i,
        {
            let link = links[i];
            if link.announcement_id == id {
                assert(links@[i as int].announcement_id == id);
                linked = true;
                let released = match link.phase_release_at {
                    Some(at) => at <= now,
                    None => false,
                };
                let open = match link.state {
                    Some(state) => state >= 0,
                    None => false,
                };
                if released && open {
                    known = true;
                }
            }
            i += 1;
        }
        if !announcement.is_shown {
            return false;
        }
        match self {
            Audience::Public { game_id } => for_game(&announcement.row, *game_id) && !linked,
            Audience::Team { game_id } => for_game(&announcement.row, *game_id) && (!linked
                || known),
            Audience::TeamPuzzle { game_id, puzzle_id } => {
                let own = match announcement.row.game_id {
                    Some(own) => own == *game_id,
                    None => false,
                };
                own && about(links, id, *puzzle_id)
            },
        }
    }
}

fn for_game(row: &AnnouncementShowRow, game_id: i32) -> (r: bool)
    ensures
        r == (row.game_id is None || row.game_id == Some(game_id)),
{
    match row.game_id {
        Some(own) => own == game_id,
        None => true,
    }
}

fn about(links: &Vec<AnnouncementLink>, announcement_id: i32, puzzle_id: i32) -> (r: bool)
    ensures
        r == is_about(links@, announcement_id, puzzle_id),
{
    let mut i: usize = 0;
    while i < links.len()
        invariant
            i <= links@.len(),
            forall|k: int|
                0 <= k < i ==> !((#[trigger] links@[k]).announcement_id == announcement_id
                    && links@[k].puzzle_id == puzzle_id),
        decreases links@.len() - i,
    {
        if links[i].announcement_id == announcement_id && links[i].puzzle_id == puzzle_id {
            return true;
        }
        i += 1;
    }
    false
}

/// Whether an announcement comes before another: a pinned one before others, then the one that was
/// changed last.
pub open spec fn comes_first(a: AnnouncementShowRow, b: AnnouncementShowRow) -> bool {
    (a.is_pinned && !b.is_pinned) || (a.is_pinned == b.is_pinned && a.utime_at > b.utime_at)
}

/// Where an announcement goes in a list: behind the last one that it does not come before.
pub open spec fn place(list: Seq<AnnouncementShowRow>, row: AnnouncementShowRow) -> int
    decreases list.len(),
{
    if list.len() == 0 {
        0
    } else if comes_first(row, list.last()) {
        place(list.drop_last(), row)
    } else {
        list.len() as int
    }
}

/// The announcements that an audience reads, in their order.
pub open spec fn read_by(
    rows: Seq<AnnouncementListRow>,
    links: Seq<AnnouncementLink>,
    audience: Audience,
    now: Timestamp,
) -> Seq<AnnouncementShowRow>
    decreases rows.len(),
{
    if rows.len() == 0 {
        Seq::empty()
    } else {
        let list = read_by(rows.drop_last(), links, audience, now);
        if audience.reads(rows.last(), links, now) {
            list.insert(place(list, rows.last().row), rows.last().row)
        } else {
            list
        }
    }
}

fn find_place(list: &Vec<AnnouncementShowRow>, row: &AnnouncementShowRow) -> (r: usize)
    ensures
        r == place(list@, *row),
        r <= list@.len(),
{
    let mut i: usize = list.len();
    assert(list@.take(i as int) =~= list@);
    while i > 0
        invariant
            i <= list@.len(),
            place(list@, *row) == place(list@.take(i as int), *row),
        decreases i,
    {
        assert(list@.take(i as int).last() == list@[i - 1]);
        assert(list@.take(i as int).drop_last() =~= list@.take(i - 1));
        let other = &list[i - 1];
        let first = (row.is_pinned && !other.is_pinned) || (row.is_pinned == other.is_pinned
            && row.utime_at > other.utime_at);
        if !first {
            return i;
        }
        i -= 1;
    }
    0
}

fn pick(
    rows: Vec<AnnouncementListRow>,
    links: &Vec<AnnouncementLink>,
    audience: Audience,
    now: Timestamp,
) -> (r: Vec<AnnouncementShowRow>)
    ensures
        r@ == read_by(rows@, links@, audience, now),
{
    let ghost all = rows@;
    let mut list: Vec<AnnouncementShowRow> = Vec::new();
    for announcement in it: rows
        invariant
            it.seq() == all,
            list@ == read_by(all.take(it.index()), links@, audience, now),
    {
        proof {
            assert(all.take(it.index() + 1).drop_last() =~= all.take(it.index()));
            assert(all.take(it.index() + 1).last() == announcement);
        }
        if audience.accepts(&announcement, links, now) {
            let at = find_place(&list, &announcement.row);
            list.insert(at, announcement.row);
        }
    }
    assert(all.take(all.len() as int) =~= all);
    list
}

/// Whether announcements are shown as they are stored, each with its puzzles.
pub open spec fn shows_all(
    shown: Seq<RbAnnouncementShowData>,
    rows: Seq<AnnouncementShowRow>,
    puzzles: Seq<AnnouncementPuzzleRow>,
) -> bool {
    &&& shown.len() == rows.len()
    &&& forall|i: int|
        0 <= i < rows.len() ==> anmt::shows_announcement(#[trigger] shown[i], rows[i], puzzles)
}

/// The announcements that everyone reads who looks at a game: those about no puzzle.
pub fn list_all_for_public(
    rows: Vec<AnnouncementListRow>,
    links: &Vec<AnnouncementLink>,
    game_id: i32,
    now: Timestamp,
    puzzles: &Vec<AnnouncementPuzzleRow>,
) -> (r: Vec<RbAnnouncementShowData>)
    ensures
        shows_all(r@, read_by(rows@, links@, Audience::Public { game_id }, now), puzzles@),
{
    attach_show_puzzles(pick(rows, links, Audience::Public { game_id }, now), puzzles)
}

/// The announcements that a team reads: those about no puzzle, and those about one that it knows.
pub fn list_all_for_team(
    rows: Vec<AnnouncementListRow>,
    links: &Vec<AnnouncementLink>,
    game_id: i32,
    now: Timestamp,
    puzzles: &Vec<AnnouncementPuzzleRow>,
) -> (r: Vec<RbAnnouncementShowData>)
    ensures
        shows_all(r@, read_by(rows@, links@, Audience::Team { game_id }, now), puzzles@),
{
    attach_show_puzzles(pick(rows, links, Audience::Team { game_id }, now), puzzles)
}

/// The announcements of the team's game about a puzzle that it looks at.
pub fn list_for_team_puzzle(
    rows: Vec<AnnouncementListRow>,
    links: &Vec<AnnouncementLink>,
    game_id: i32,
    puzzle_id: i32,
    now: Timestamp,
    puzzles: &Vec<AnnouncementPuzzleRow>,
) -> (r: Vec<RbAnnouncementShowData>)
    ensures
        shows_all(
            r@,
            read_by(rows@, links@, Audience::TeamPuzzle { game_id, puzzle_id }, now),
            puzzles@,
        ),
{
    attach_show_puzzles(pick(rows, links, Audience::TeamPuzzle { game_id, puzzle_id }, now), puzzles)
}

/// What everyone reads, the teams of the game read too; what is not shown, nobody reads; and the
/// public reads nothing about puzzles.
pub proof fn public_announcements_reach_teams(
    announcement: AnnouncementListRow,
    links: Seq<AnnouncementLink>,
    game_id: i32,
    audience: Audience,
    now: Timestamp,
)
    ensures
        (Audience::Public { game_id }).reads(announcement, links, now) ==> (Audience::Team {
            game_id,
        }).reads(announcement, links, now),
        !announcement.is_shown ==> !audience.reads(announcement, links, now),
        is_linked(links, announcement.row.id) ==> !(Audience::Public { game_id }).reads(
            announcement,
            links,
            now,
        ),
{
}

proof fn lemma_place(list: Seq<AnnouncementShowRow>, row: AnnouncementShowRow)
    requires
        in_announced_order(list),
    ensures
        0 <= place(list, row) <= list.len(),
        forall|k: int| 0 <= k < place(list, row) ==> !comes_first(row, #[trigger] list[k]),
        forall|k: int| place(list, row) <= k < list.len() ==> comes_first(row, #[trigger] list[k]),
    decreases list.len(),
{
    if list.len() > 0 {
        let rest = list.drop_last();
        assert forall|i: int, j: int| 0 <= i < j < rest.len() implies !comes_first(
            #[trigger] rest[j],
            #[trigger] rest[i],
        ) by {
            assert(rest[i] == list[i] && rest[j] == list[j]);
        }
        lemma_place(rest, row);
        let p = place(list, row);
        assert forall|k: int| p <= k < list.len() implies comes_first(row, #[trigger] list[k]) by {
            if k < rest.len() {
                assert(rest[k] == list[k]);
            }
        }
        assert forall|k: int| 0 <= k < p implies !comes_first(row, #[trigger] list[k]) by {
            if comes_first(row, list.last()) {
                assert(rest[k] == list[k]);
            } else if k < list.len() - 1 {
                assert(!comes_first(list[list.len() - 1], list[k]));
            }
        }
    }
}

/// Whether announcements stand in their order.
pub open spec fn in_announced_order(list: Seq<AnnouncementShowRow>) -> bool {
    forall|i: int, j: int|
        0 <= i < j < list.len() ==> !comes_first(#[trigger] list[j], #[trigger] list[i])
}

/// An audience reads the announcements that are for it and no others, in their order.
pub proof fn announcements_are_in_order(
    rows: Seq<AnnouncementListRow>,
    links: Seq<AnnouncementLink>,
    audience: Audience,
    now: Timestamp,
)
    ensures
        in_announced_order(read_by(rows, links, audience, now)),
        forall|k: int|
            0 <= k < read_by(rows, links, audience, now).len() ==> exists|i: int|
                0 <= i < rows.len() && audience.reads(#[trigger] rows[i], links, now) && rows[i].row
                    == #[trigger] read_by(rows, links, audience, now)[k],
        forall|i: int|
            0 <= i < rows.len() && audience.reads(#[trigger] rows[i], links, now) ==> read_by(
                rows,
                links,
                audience,
                now,
            ).contains(rows[i].row),
    decreases rows.len(),
{
    if rows.len() > 0 {
        let rest = rows.drop_last();
        let last = rows.last();
        let before = read_by(rest, links, audience, now);
        let list = read_by(rows, links, audience, now);
        announcements_are_in_order(rest, links, audience, now);
        assert(rows[rows.len() - 1] == last);
        lemma_place(before, last.row);
        let p = place(before, last.row);
        let taken = audience.reads(last, links, now);
        assert forall|i: int, j: int| 0 <= i < j < list.len() implies !comes_first(
            #[trigger] list[j],
            #[trigger] list[i],
        ) by {
            if !taken || j < p {
                assert(list[i] == before[i] && list[j] == before[j]);
            } else if i > p {
                assert(list[i] == before[i - 1] && list[j] == before[j - 1]);
            } else if j == p {
                assert(list[i] == before[i]);
            } else if i == p {
                assert(list[j] == before[j - 1]);
            } else {
                assert(list[i] == before[i] && list[j] == before[j - 1]);
            }
        }
        assert forall|k: int| 0 <= k < list.len() implies exists|i: int|
            0 <= i < rows.len() && audience.reads(#[trigger] rows[i], links, now) && rows[i].row
                == #[trigger] list[k] by {
            if taken && k == p {
                assert(rows[rows.len() - 1].row == list[k]);
            } else {
                let old = if taken && k > p {
                    k - 1
                } else {
                    k
                };
                assert(list[k] == before[old]);
                let i = choose|i: int|
                    0 <= i < rest.len() && audience.reads(#[trigger] rest[i], links, now)
                        && rest[i].row == before[old];
                assert(rows[i] == rest[i]);
            }
        }
        assert forall|i: int| 0 <= i < rows.len() && audience.reads(
            #[trigger] rows[i],
            links,
            now,
        ) implies list.contains(rows[i].row) by {
            if i < rest.len() {
                assert(rest[i] == rows[i]);
                let k = choose|k: int| 0 <= k < before.len() && before[k] == rest[i].row;
                if taken && k >= p {
                    assert(list[k + 1] == before[k]);
                } else {
                    assert(list[k] == before[k]);
                }
            } else {
                assert(list[p] == last.row);
            }
        }
    }
}

/// Which announcements an audience reads: everybody reads those that are shown, of the game or of all
/// games, and belong to no puzzle; a team reads those too that belong to a puzzle which is released and
/// open to it; on the page of a puzzle those of the game are read that belong to it.
pub proof fn audiences_read_what_is_meant_for_them(
    announcement: AnnouncementListRow,
    links: Seq<AnnouncementLink>,
    game_id: i32,
    puzzle_id: i32,
    now: Timestamp,
)
    ensures
        ({
            let row = announcement.row;
            let here = row.game_id is None || row.game_id == Some(game_id);
            let linked = exists|i: int|
                0 <= i < links.len() && (#[trigger] links[i]).announcement_id == row.id;
            let known = exists|i: int|
                0 <= i < links.len() && (#[trigger] links[i]).announcement_id == row.id
                    && links[i].phase_release_at is Some && links[i].phase_release_at->0 <= now
                    && links[i].state is Some && links[i].state->0 >= 0;
            let about = exists|i: int|
                0 <= i < links.len() && (#[trigger] links[i]).announcement_id == row.id
                    && links[i].puzzle_id == puzzle_id;
            &&& (Audience::Public { game_id }).reads(announcement, links, now)
                <==> announcement.is_shown && here && !linked
            &&& (Audience::Team { game_id }).reads(announcement, links, now)
                <==> announcement.is_shown && here && (!linked || known)
            &&& (Audience::TeamPuzzle { game_id, puzzle_id }).reads(announcement, links, now)
                <==> announcement.is_shown && row.game_id == Some(game_id) && about
        }),
{
    let row = announcement.row;
    if is_known_to(links, row.id, now) {
        let i = choose|i: int|
            0 <= i < links.len() && (#[trigger] links[i]).announcement_id == row.id
                && links[i].is_known(now);
        assert(links[i].announcement_id == row.id);
    }
    if exists|i: int|
        0 <= i < links.len() && (#[trigger] links[i]).announcement_id == row.id
            && links[i].phase_release_at is Some && links[i].phase_release_at->0 <= now
            && links[i].state is Some && links[i].state->0 >= 0 {
        let i = choose|i: int|
            0 <= i < links.len() && (#[trigger] links[i]).announcement_id == row.id
                && links[i].phase_release_at is Some && links[i].phase_release_at->0 <= now
                && links[i].state is Some && links[i].state->0 >= 0;
        assert(links[i].is_known(now));
    }
}

/// Pinned announcements come before the others, and younger ones before older ones.
pub proof fn pinned_announcements_come_first(
    rows: Seq<AnnouncementListRow>,
    links: Seq<AnnouncementLink>,
    audience: Audience,
    now: Timestamp,
    i: int,
    j: int,
)
    requires
        0 <= i < j < read_by(rows, links, audience, now).len(),
    ensures
        ({
            let list = read_by(rows, links, audience, now);
            &&& list[j].is_pinned ==> list[i].is_pinned
            &&& list[i].is_pinned == list[j].is_pinned ==> list[i].utime_at >= list[j].utime_at
        }),
{
    announcements_are_in_order(rows, links, audience, now);
    let list = read_by(rows, links, audience, now);
    assert(!comes_first(list[j], list[i]));
}

/// Each announcement that is read is listed once.
pub proof fn each_announcement_is_read_once(
    rows: Seq<AnnouncementListRow>,
    row: AnnouncementListRow,
    links: Seq<AnnouncementLink>,
    audience: Audience,
    now: Timestamp,
)
    ensures
        read_by(Seq::empty(), links, audience, now).len() == 0,
        audience.reads(row, links, now) ==> read_by(rows.push(row), links, audience, now).len()
            == read_by(rows, links, audience, now).len() + 1,
        !audience.reads(row, links, now) ==> read_by(rows.push(row), links, audience, now)
            == read_by(rows, links, audience, now),
{
    assert(rows.push(row).drop_last() =~= rows);
    announcements_are_in_order(rows, links, audience, now);
    lemma_place(read_by(rows, links, audience, now), row.row);
}

/// A list shows each announcement that is read, one for one.
pub proof fn lists_show_what_is_read(
    shown: Seq<RbAnnouncementShowData>,
    rows: Seq<AnnouncementShowRow>,
    puzzles: Seq<AnnouncementPuzzleRow>,
    i: int,
)
    requires
        shows_all(shown, rows, puzzles),
        0 <= i < rows.len(),
    ensures
        shown.len() == rows.len(),
        shown[i].id == rows[i].id,
        anmt::shows_announcement(shown[i], rows[i], puzzles),
{
    assert(anmt::shows_announcement(shown[i], rows[i], puzzles));
}

} // verus!
