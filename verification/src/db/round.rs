//! Rounds, and what teams see of them.
use vstd::prelude::*;

use crate::clock::Timestamp;
use crate::db::game::GameUserInfo;
use crate::db::patch;
use crate::db::patch::or_old;
use crate::db::puzzle::view::RbPuzzleTeamStateShowData;
use crate::model::game::RbTeamPuzzleState;
use crate::text;
use crate::text::parse_i32;

verus! {

/// How a round is looked up within its game.
#[derive(Debug, Clone, Copy, PartialEq, Eq, Structural)]
pub enum RoundRef {
    Id(i32),
    Slug,
}

/// Whether a reference to a round is an id; what is none is a slug.
pub fn get_round_id_by_game_ref(round_ref: &str) -> (r: RoundRef)
    ensures
        r == (match text::signed_value(round_ref@) {
            Some(v) if i32::MIN <= v <= i32::MAX => RoundRef::Id(v as i32),
            _ => RoundRef::Slug,
        }),
{
    match parse_i32(round_ref) {
        Some(id) => RoundRef::Id(id),
        None => RoundRef::Slug,
    }
}

/// What a user gets to know of a round's game: nothing where the round is not found, the user is
/// in no team, or nothing of the round is open to the team.
pub fn get_round_user_info(game_id: Option<i32>, info: Option<GameUserInfo>, access: bool) -> (r:
    Option<GameUserInfo>)
    ensures
        r == (match (game_id, info) {
            (Some(game_id), Some(info)) if info.team_id is Some && access => Some(
                GameUserInfo { game_id, team_id: info.team_id },
            ),
            _ => None,
        }),
{
    match (game_id, info) {
        (Some(game_id), Some(info)) => match info.team_id {
            Some(team_id) => {
                if access {
                    Some(GameUserInfo { game_id, team_id: Some(team_id) })
                } else {
                    None
                }
            },
            None => None,
        },
        _ => None,
    }
}

/// A round, as it is shown.
#[derive(Debug)]
pub struct RbRoundShowData {
    pub id: i32,
    pub slug: Option<String>,
    pub title: String,
    pub cover: Option<String>,
    pub game_id: i32,
    pub puzzle: Option<i32>,
}

/// How many teams have come how far with a puzzle.
#[derive(Debug, Clone, Copy, PartialEq, Eq, Structural)]
pub struct RbPuzzleSolveStats {
    pub solved: i64,
    pub tried: i64,
    pub unlocked: i64,
}

/// A puzzle in the list of its round.
#[derive(Debug)]
pub struct RbPuzzleSimpleData {
    pub id: i32,
    pub slug: Option<String>,
    pub title: String,
    pub state: RbTeamPuzzleState,
    pub answer: Option<String>,
    pub solve_stats: Option<RbPuzzleSolveStats>,
}

/// A puzzle of a round, as it is stored for a team.
#[derive(Debug)]
pub struct RbPuzzleSimpleRow {
    pub id: i32,
    pub slug: Option<String>,
    pub title: String,
    pub state: RbTeamPuzzleState,
    pub answer: Option<String>,
}

/// How many teams have come how far with a puzzle, as it is counted.
#[derive(Debug, Clone, Copy, PartialEq, Eq, Structural)]
pub struct RbPuzzleSolveStatsRow {
    pub puzzle_id: i32,
    pub solved: i64,
    pub tried: i64,
    pub unlocked: i64,
}

/// How far a team has come with a round.
#[derive(Debug)]
pub struct RbRoundTeamStateShowData {
    pub puzzles: Vec<RbPuzzleSimpleData>,
    pub puzzle: Option<RbPuzzleTeamStateShowData>,
}

/// A round together with how far a team has come with it.
#[derive(Debug)]
pub struct RbRoundForTeamData {
    pub data: RbRoundShowData,
    pub state: RbRoundTeamStateShowData,
}

/// A fifth of a number, without its fraction.
pub open spec fn fifth(n: int) -> int {
    if n >= 0 {
        n / 5
    } else {
        -((-n) / 5)
    }
}

/// Whether counts that are held back may be shown: fifty teams have solved the puzzle, or a fifth of
/// those that take part.
pub open spec fn counts_shown(solved: int, participating_teams: int) -> bool {
    solved >= 50 || solved >= fifth(participating_teams)
}

/// Whether counts that are held back may be shown.
pub fn stats_visible(solved: i64, participating_teams: i64) -> (r: bool)
    ensures
        r == counts_shown(solved as int, participating_teams as int),
{
    let part: i128 = if participating_teams >= 0 {
        (participating_teams as i128) / 5
    } else {
        -((-(participating_teams as i128)) / 5)
    };
    solved >= 50 || (solved as i128) >= part
}

/// Once counts are shown they stay shown as more teams solve the puzzle.
pub proof fn shown_counts_stay_shown(solved: int, more: int, participating_teams: int)
    requires
        counts_shown(solved, participating_teams),
        solved <= more,
    ensures
        counts_shown(more, participating_teams),
{
}

/// The counts of a puzzle: those of its last row, and none where it has no row.
pub open spec fn stats_of(rows: Seq<RbPuzzleSolveStatsRow>, puzzle_id: i32) -> RbPuzzleSolveStats
    decreases rows.len(),
{
    if rows.len() == 0 {
        RbPuzzleSolveStats { solved: 0, tried: 0, unlocked: 0 }
    } else if rows.last().puzzle_id == puzzle_id {
        RbPuzzleSolveStats {
            solved: rows.last().solved,
            tried: rows.last().tried,
            unlocked: rows.last().unlocked,
        }
    } else {
        stats_of(rows.drop_last(), puzzle_id)
    }
}

fn find_stats(rows: &Vec<RbPuzzleSolveStatsRow>, puzzle_id: i32) -> (r: RbPuzzleSolveStats)
    ensures
        r == stats_of(rows@, puzzle_id),
{
    let mut i: usize = rows.len();
    assert(rows@.take(i as int) =~= rows@);
    while i > 0
        invariant
            i <= rows@.len(),
            stats_of(rows@, puzzle_id) == stats_of(rows@.take(i as int), puzzle_id),
        decreases i,
    {
        i -= 1;
        assert(rows@.take(i + 1).drop_last() =~= rows@.take(i as int));
        assert(rows@.take(i + 1).last() == rows@[i as int]);
        let row = rows[i];
        if row.puzzle_id == puzzle_id {
            return RbPuzzleSolveStats {
                solved: row.solved,
                tried: row.tried,
                unlocked: row.unlocked,
            };
        }
    }
    RbPuzzleSolveStats { solved: 0, tried: 0, unlocked: 0 }
}

/// Whether a puzzle is listed as it is stored, with its counts where these may be shown.
pub open spec fn lists(
    shown: RbPuzzleSimpleData,
    row: RbPuzzleSimpleRow,
    stats: Seq<RbPuzzleSolveStatsRow>,
    delay_solve_stats: bool,
    participating_teams: i64,
) -> bool {
    &&& shown.id == row.id
    &&& shown.slug == row.slug
    &&& shown.title == row.title
    &&& shown.state == row.state
    &&& shown.answer == row.answer
    &&& shown.solve_stats == (if !delay_solve_stats || counts_shown(
        stats_of(stats, row.id).solved as int,
        participating_teams as int,
    ) {
        Some(stats_of(stats, row.id))
    } else {
        None
    })
}

/// The puzzles of a round as a team sees them. Where the game holds counts back, they are shown only
/// once enough teams have solved a puzzle.
pub fn get_state_for_team(
    rows: Vec<RbPuzzleSimpleRow>,
    stats: &Vec<RbPuzzleSolveStatsRow>,
    delay_solve_stats: bool,
    participating_teams: i64,
) -> (r: Vec<RbPuzzleSimpleData>)
    ensures
        r@.len() == rows@.len(),
        forall|i: int|
            0 <= i < rows@.len() ==> lists(
                #[trigger] r@[i],
                rows@[i],
                stats@,
                delay_solve_stats,
                participating_teams,
            ),
{
    let mut puzzles: Vec<RbPuzzleSimpleData> = Vec::new();
    for row in it: rows
        invariant
            it.seq() == rows@,
            puzzles@.len() == it.index(),
            forall|i: int|
                0 <= i < puzzles@.len() ==> lists(
                    #[trigger] puzzles@[i],
                    rows@[i],
                    stats@,
                    delay_solve_stats,
                    participating_teams,
                ),
    {
        let counts = find_stats(stats, row.id);
        let solve_stats = if !delay_solve_stats || stats_visible(
            counts.solved,
            participating_teams,
        ) {
            Some(counts)
        } else {
            None
        };
        puzzles.push(
            RbPuzzleSimpleData {
                id: row.id,
                slug: row.slug,
                title: row.title,
                state: row.state,
                answer: row.answer,
                solve_stats,
            },
        );
    }
    puzzles
}

/// A round in a list.
#[derive(Debug)]
pub struct RbRoundSimpleData {
    pub id: i32,
    pub slug: Option<String>,
    pub title: String,
    pub description: Option<String>,
}

/// A round, as administrators see it.
#[derive(Debug)]
pub struct RbRoundAdminData {
    pub id: i32,
    pub slug: Option<String>,
    pub sort: i32,
    pub title: String,
    pub description: Option<String>,
    pub cover: Option<String>,
    pub game_id: i32,
    pub puzzle: Option<i32>,
}

/// A round that is to be created.
#[derive(Debug)]
pub struct RbRoundCreateData {
    pub game_id: i32,
    pub slug: Option<String>,
    pub sort: i32,
    pub title: String,
    pub description: Option<String>,
    pub content: String,
    pub content_type: i16,
    pub cover: Option<String>,
    pub puzzle: Option<i32>,
}

/// What is to be changed of a round. What is not named stays; what is named as nothing is taken
/// away.
#[derive(Debug)]
pub struct RbRoundUpdateData {
    pub slug: Option<Option<String>>,
    pub sort: Option<i32>,
    pub title: Option<String>,
    pub description: Option<Option<String>>,
    pub cover: Option<Option<String>>,
    pub puzzle: Option<Option<i32>>,
}

/// Whether a round can be created: its game must be there, and it cannot open with a puzzle, for it
/// has none yet.
pub fn admin_create(data: &RbRoundCreateData, game_exists: bool) -> (r: bool)
    ensures
        r == (game_exists && data.puzzle is None),
{
    game_exists && data.puzzle.is_none()
}

/// A round as a change leaves it: what is not named stays.
pub open spec fn changed_round(round: RbRoundAdminData, data: RbRoundUpdateData) -> RbRoundAdminData {
    RbRoundAdminData {
        id: round.id,
        slug: patch::named_or(data.slug, round.slug),
        sort: patch::named_or(data.sort, round.sort),
        title: patch::named_or(data.title, round.title),
        description: patch::named_or(data.description, round.description),
        cover: patch::named_or(data.cover, round.cover),
        game_id: round.game_id,
        puzzle: patch::named_or(data.puzzle, round.puzzle),
    }
}

/// Changes a round, given the round of the puzzle that it is to open with, if that puzzle is there:
/// a round opens with a puzzle of its own only.
pub fn admin_update(round: RbRoundAdminData, data: RbRoundUpdateData, puzzle_round: Option<i32>) -> (r:
    Option<RbRoundAdminData>)
    ensures
        r == (if data.puzzle matches Some(Some(_)) && puzzle_round != Some(round.id) {
            None
        } else {
            Some(changed_round(round, data))
        }),
{
    let names_puzzle = match data.puzzle {
        Some(puzzle) => puzzle.is_some(),
        None => false,
    };
    let is_own = match puzzle_round {
        Some(id) => id == round.id,
        None => false,
    };
    if names_puzzle && !is_own {
        return None;
    }
    Some(
        RbRoundAdminData {
            id: round.id,
            slug: or_old(data.slug, round.slug),
            sort: or_old(data.sort, round.sort),
            title: or_old(data.title, round.title),
            description: or_old(data.description, round.description),
            cover: or_old(data.cover, round.cover),
            game_id: round.game_id,
            puzzle: or_old(data.puzzle, round.puzzle),
        },
    )
}

/// A puzzle of a team, as it is stored.
#[derive(Debug, Clone, Copy, PartialEq, Eq, Structural)]
pub struct RoundPuzzleRow {
    pub round_id: i32,
    pub state: i16,
    pub release_at: Timestamp,
}

impl RoundPuzzleRow {
    /// Whether the puzzle opens its round to the team at a time.
    pub open spec fn opens(self, round_id: i32, now: Timestamp) -> bool {
        self.round_id == round_id && self.state >= 0 && self.release_at <= now
    }
}

/// Whether some puzzle of a team opens a round to it.
pub open spec fn is_open(rows: Seq<RoundPuzzleRow>, round_id: i32, now: Timestamp) -> bool {
    exists|i: int| 0 <= i < rows.len() && (#[trigger] rows[i]).opens(round_id, now)
}

fn has_open_puzzle(rows: &Vec<RoundPuzzleRow>, round_id: i32, now: Timestamp) -> (r: bool)
    ensures
        r == is_open(rows@, round_id, now),
{
    let mut i: usize = 0;
    while i < rows.len()
        invariant
            i <= rows@.len(),
            forall|k: int| 0 <= k < i ==> !(#[trigger] rows@[k]).opens(round_id, now),
        decreases rows@.len() - i,
    {
        let row = rows[i];
        if row.round_id == round_id && row.state >= 0 && row.release_at <= now {
            assert(rows@[i as int].opens(round_id, now));
            return true;
        }
        i += 1;
    }
    false
}

/// Whether a team may see a round, given its puzzles: some puzzle of the round must be open to it
/// and released, and the team must not be banned.
pub fn get_round_state(
    rows: &Vec<RoundPuzzleRow>,
    round_id: i32,
    is_banned: bool,
    now: Timestamp,
) -> (r: bool)
    ensures
        r == (!is_banned && is_open(rows@, round_id, now)),
{
    !is_banned && has_open_puzzle(rows, round_id, now)
}

/// The rounds that are open to a team, in the order in which they are given.
pub open spec fn open_rounds(
    rounds: Seq<RbRoundSimpleData>,
    rows: Seq<RoundPuzzleRow>,
    now: Timestamp,
) -> Seq<RbRoundSimpleData>
    decreases rounds.len(),
{
    if rounds.len() == 0 {
        Seq::empty()
    } else if is_open(rows, rounds.last().id, now) {
        open_rounds(rounds.drop_last(), rows, now).push(rounds.last())
    } else {
        open_rounds(rounds.drop_last(), rows, now)
    }
}

/// The rounds of a game that a team sees, in the order in which they are given.
pub fn get_simple_list_for_team(
    rounds: Vec<RbRoundSimpleData>,
    rows: &Vec<RoundPuzzleRow>,
    now: Timestamp,
) -> (r: Vec<RbRoundSimpleData>)
    ensures
        r@ == open_rounds(rounds@, rows@, now),
{
    let ghost all = rounds@;
    let mut shown: Vec<RbRoundSimpleData> = Vec::new();
    for round in it: rounds
        invariant
            it.seq() == all,
            shown@ == open_rounds(all.take(it.index()), rows@, now),
    {
        proof {
            assert(all.take(it.index() + 1).drop_last() =~= all.take(it.index()));
            assert(all.take(it.index() + 1).last() == round);
        }
        if has_open_puzzle(rows, round.id, now) {
            shown.push(round);
        }
    }
    assert(all.take(all.len() as int) =~= all);
    shown
}

/// A fifth is what is left of a division by five without its rest, towards nothing.
pub proof fn fifths_are_whole(n: int)
    ensures
        n >= 0 ==> 5 * fifth(n) <= n < 5 * fifth(n) + 5,
        n < 0 ==> 5 * fifth(n) - 5 < n <= 5 * fifth(n),
{
}

/// Counts are shown once fifty teams have solved a puzzle or a fifth of the teams that take part, and
/// not before.
pub proof fn counts_are_shown_late(solved: int, participating_teams: int)
    requires
        participating_teams >= 0,
    ensures
        solved >= 50 ==> counts_shown(solved, participating_teams),
        5 * solved >= participating_teams ==> counts_shown(solved, participating_teams),
        solved < 50 && 5 * (solved + 1) <= participating_teams ==> !counts_shown(
            solved,
            participating_teams,
        ),
{
}

/// The counts of a puzzle are those of the last row of it, and nothing where it has none.
pub proof fn counts_are_those_of_the_puzzle(
    rows: Seq<RbPuzzleSolveStatsRow>,
    row: RbPuzzleSolveStatsRow,
    puzzle_id: i32,
)
    ensures
        ({
            let none = stats_of(Seq::empty(), puzzle_id);
            none.solved == 0 && none.tried == 0 && none.unlocked == 0
        }),
        row.puzzle_id == puzzle_id ==> ({
            let told = stats_of(rows.push(row), puzzle_id);
            told.solved == row.solved && told.tried == row.tried && told.unlocked == row.unlocked
        }),
        row.puzzle_id != puzzle_id ==> stats_of(rows.push(row), puzzle_id) == stats_of(
            rows,
            puzzle_id,
        ),
{
    assert(rows.push(row).drop_last() =~= rows);
}

/// A puzzle is listed as it is stored; its counts are told unless they are held back, and those that
/// are held back are told once enough teams have solved it.
pub proof fn listed_puzzles_tell_what_is_stored(
    shown: RbPuzzleSimpleData,
    row: RbPuzzleSimpleRow,
    stats: Seq<RbPuzzleSolveStatsRow>,
    delay_solve_stats: bool,
    participating_teams: i64,
)
    requires
        lists(shown, row, stats, delay_solve_stats, participating_teams),
    ensures
        shown.id == row.id,
        shown.slug == row.slug,
        shown.title@ == row.title@,
        shown.state == row.state,
        shown.answer == row.answer,
        !delay_solve_stats ==> shown.solve_stats is Some,
        delay_solve_stats ==> (shown.solve_stats is Some <==> counts_shown(
            stats_of(stats, row.id).solved as int,
            participating_teams as int,
        )),
        shown.solve_stats is Some ==> shown.solve_stats->0 == stats_of(stats, row.id),
{
}

/// A round is open exactly where one of its puzzles is open to the team and released, and the rounds
/// that are listed are the open ones, in their order.
pub proof fn rounds_open_with_their_puzzles(
    rounds: Seq<RbRoundSimpleData>,
    round: RbRoundSimpleData,
    rows: Seq<RoundPuzzleRow>,
    now: Timestamp,
)
    ensures
        open_rounds(Seq::empty(), rows, now).len() == 0,
        ({
            let open = exists|i: int|
                0 <= i < rows.len() && (#[trigger] rows[i]).round_id == round.id && rows[i].state
                    >= 0 && rows[i].release_at <= now;
            &&& is_open(rows, round.id, now) <==> open
            &&& open ==> open_rounds(rounds.push(round), rows, now) == open_rounds(
                rounds,
                rows,
                now,
            ).push(round)
            &&& !open ==> open_rounds(rounds.push(round), rows, now) == open_rounds(
                rounds,
                rows,
                now,
            )
        }),
{
    assert(rounds.push(round).drop_last() =~= rounds);
    if is_open(rows, round.id, now) {
        let i = choose|i: int| 0 <= i < rows.len() && (#[trigger] rows[i]).opens(round.id, now);
        assert(rows[i].round_id == round.id);
    }
    if exists|i: int|
        0 <= i < rows.len() && (#[trigger] rows[i]).round_id == round.id && rows[i].state >= 0
            && rows[i].release_at <= now {
        let i = choose|i: int|
            0 <= i < rows.len() && (#[trigger] rows[i]).round_id == round.id && rows[i].state >= 0
                && rows[i].release_at <= now;
        assert(rows[i].opens(round.id, now));
    }
}

/// A change of a round sets what it names and leaves the rest.
pub proof fn changes_of_rounds_touch_what_they_name(round: RbRoundAdminData, data: RbRoundUpdateData)
    ensures
        ({
            let changed = changed_round(round, data);
            &&& data.slug is None ==> changed.slug == round.slug
            &&& data.slug matches Some(x) ==> changed.slug == x
            &&& data.sort is None ==> changed.sort == round.sort
            &&& data.sort matches Some(x) ==> changed.sort == x
            &&& data.title is None ==> changed.title == round.title
            &&& data.title matches Some(x) ==> changed.title == x
            &&& data.description is None ==> changed.description == round.description
            &&& data.description matches Some(x) ==> changed.description == x
            &&& data.cover is None ==> changed.cover == round.cover
            &&& data.cover matches Some(x) ==> changed.cover == x
            &&& data.puzzle is None ==> changed.puzzle == round.puzzle
            &&& data.puzzle matches Some(x) ==> changed.puzzle == x
            &&& changed.id == round.id && changed.game_id == round.game_id
        }),
{
}

} // verus!
