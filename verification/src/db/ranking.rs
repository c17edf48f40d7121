//! The order of teams on a leaderboard.
use vstd::prelude::*;

use crate::clock::Timestamp;
use crate::db::board::LeaderBoardTeamRow;

verus! {

/// Whether a time comes before another; no time comes last.
pub open spec fn sooner(a: Option<Timestamp>, b: Option<Timestamp>) -> bool {
    match (a, b) {
        (Some(x), Some(y)) => x < y,
        (Some(_), None) => true,
        _ => false,
    }
}

/// Whether a team is ahead of another: it has finished, or finished sooner; else it has solved more
/// puzzles; else it solved its last one sooner; else its number is lower.
pub open spec fn ahead(a: LeaderBoardTeamRow, b: LeaderBoardTeamRow) -> bool {
    if a.finish_at != b.finish_at {
        sooner(a.finish_at, b.finish_at)
    } else if a.solves != b.solves {
        a.solves > b.solves
    } else if a.last_solved_at != b.last_solved_at {
        sooner(a.last_solved_at, b.last_solved_at)
    } else {
        a.id < b.id
    }
}

/// Of two different teams one is ahead of the other, and being ahead goes from one team to the next.
pub proof fn teams_are_strictly_ordered(
    a: LeaderBoardTeamRow,
    b: LeaderBoardTeamRow,
    c: LeaderBoardTeamRow,
)
    ensures
        !ahead(a, a),
        ahead(a, b) ==> !ahead(b, a),
        ahead(a, b) && ahead(b, c) ==> ahead(a, c),
        a.id != b.id ==> ahead(a, b) || ahead(b, a),
{
}

fn is_sooner(a: Option<Timestamp>, b: Option<Timestamp>) -> (r: bool)
    ensures
        r == sooner(a, b),
{
    match (a, b) {
        (Some(x), Some(y)) => x < y,
        (Some(_), None) => true,
        _ => false,
    }
}

fn is_ahead(a: &LeaderBoardTeamRow, b: &LeaderBoardTeamRow) -> (r: bool)
    ensures
        r == ahead(*a, *b),
{
    if is_sooner(a.finish_at, b.finish_at) {
        true
    } else if is_sooner(b.finish_at, a.finish_at) {
        false
    } else if a.solves != b.solves {
        a.solves > b.solves
    } else if is_sooner(a.last_solved_at, b.last_solved_at) {
        true
    } else if is_sooner(b.last_solved_at, a.last_solved_at) {
        false
    } else {
        a.id < b.id
    }
}

/// Whether no team of a list is ahead of one before it.
pub open spec fn ranked(teams: Seq<LeaderBoardTeamRow>) -> bool {
    forall|i: int, j: int|
        0 <= i < j < teams.len() ==> !ahead(#[trigger] teams[j], #[trigger] teams[i])
}

fn find_rank(teams: &Vec<LeaderBoardTeamRow>, team: &LeaderBoardTeamRow) -> (r: usize)
    requires
        ranked(teams@),
    ensures
        r <= teams@.len(),
        forall|k: int| 0 <= k < r ==> !ahead(*team, #[trigger] teams@[k]),
        forall|k: int| r <= k < teams@.len() ==> ahead(*team, #[trigger] teams@[k]),
{
    let mut i: usize = teams.len();
    while i > 0
        invariant
            i <= teams@.len(),
            ranked(teams@),
            forall|k: int| i <= k < teams@.len() ==> ahead(*team, #[trigger] teams@[k]),
        decreases i,
    {
        if !is_ahead(team, &teams[i - 1]) {
            proof {
                let last = teams@[i - 1];
                assert forall|k: int| 0 <= k < i implies !ahead(*team, #[trigger] teams@[k]) by {
                    if k < i - 1 {
                        assert(!ahead(teams@[i - 1], teams@[k]));
                        lemma_not_ahead(*team, last, teams@[k]);
                    }
                }
            }
            return i;
        }
        i -= 1;
    }
    0
}

/// Who is not ahead of one who is not ahead of a third is not ahead of the third.
proof fn lemma_not_ahead(a: LeaderBoardTeamRow, b: LeaderBoardTeamRow, c: LeaderBoardTeamRow)
    requires
        !ahead(a, b),
        !ahead(b, c),
    ensures
        !ahead(a, c),
{
}

/// Ranks teams.
pub fn rank_teams(rows: Vec<LeaderBoardTeamRow>) -> (r: Vec<LeaderBoardTeamRow>)
    ensures
        ranked(r@),
        r@.to_multiset() == rows@.to_multiset(),
{
    broadcast use vstd::seq_lib::group_to_multiset_ensures;

    let mut out: Vec<LeaderBoardTeamRow> = Vec::new();
    assert(rows@.take(0) =~= Seq::<LeaderBoardTeamRow>::empty());
    for row in it: rows
        invariant
            it.seq() == rows@,
            0 <= it.index() <= rows@.len(),
            ranked(out@),
            out@.to_multiset() == rows@.take(it.index()).to_multiset(),
    {
        let ghost before = out@;
        let ghost team = row;
        let at = find_rank(&out, &row);
        out.insert(at, row);
        proof {
            broadcast use vstd::seq_lib::group_to_multiset_ensures;

            let i = it.index() as int;
            assert(rows@.take(i + 1) =~= rows@.take(i).push(team));
            vstd::seq_lib::to_multiset_insert(before, at as int, team);
            assert forall|a: int, b: int| 0 <= a < b < out@.len() implies !ahead(
                #[trigger] out@[b],
                #[trigger] out@[a],
            ) by {
                if b < at {
                    assert(out@[a] == before[a] && out@[b] == before[b]);
                } else if a > at {
                    assert(out@[a] == before[a - 1] && out@[b] == before[b - 1]);
                } else if b == at {
                    assert(out@[a] == before[a]);
                } else if a == at {
                    assert(out@[b] == before[b - 1]);
                    teams_are_strictly_ordered(team, before[b - 1], team);
                } else {
                    assert(out@[a] == before[a] && out@[b] == before[b - 1]);
                }
            }
        }
    }
    assert(rows@.take(rows@.len() as int) =~= rows@);
    out
}

/// What puts a team ahead: a team that has finished is ahead of one that has not, the one that
/// finished sooner is ahead, among those that finished together or not at all the one with more
/// puzzles is ahead, then the one whose last puzzle was solved sooner, then the one with the lower
/// number.
pub proof fn teams_get_ahead(a: LeaderBoardTeamRow, b: LeaderBoardTeamRow)
    ensures
        a.finish_at is Some && b.finish_at is None ==> ahead(a, b),
        a.finish_at is Some && b.finish_at is Some && a.finish_at->0 < b.finish_at->0 ==> ahead(a, b),
        a.finish_at == b.finish_at && a.solves > b.solves ==> ahead(a, b),
        a.finish_at == b.finish_at && a.solves == b.solves && a.last_solved_at is Some
            && b.last_solved_at is None ==> ahead(a, b),
        a.finish_at == b.finish_at && a.solves == b.solves && a.last_solved_at is Some
            && b.last_solved_at is Some && a.last_solved_at->0 < b.last_solved_at->0 ==> ahead(a, b),
        a.finish_at == b.finish_at && a.solves == b.solves && a.last_solved_at == b.last_solved_at
            && a.id < b.id ==> ahead(a, b),
{
}

/// In a ranked list no team stands behind one that it is ahead of by having finished, by having
/// finished sooner, or by having solved more where neither has finished.
pub proof fn ranked_teams_stand_in_order(teams: Seq<LeaderBoardTeamRow>, i: int, j: int)
    requires
        ranked(teams),
        0 <= i < j < teams.len(),
    ensures
        teams[j].finish_at is Some ==> teams[i].finish_at is Some && teams[i].finish_at->0
            <= teams[j].finish_at->0,
        teams[i].finish_at == teams[j].finish_at ==> teams[i].solves >= teams[j].solves,
        teams[i].finish_at == teams[j].finish_at && teams[i].solves == teams[j].solves
            && teams[j].last_solved_at is Some ==> teams[i].last_solved_at is Some
            && teams[i].last_solved_at->0 <= teams[j].last_solved_at->0,
        teams[i].finish_at == teams[j].finish_at && teams[i].solves == teams[j].solves
            && teams[i].last_solved_at == teams[j].last_solved_at ==> teams[i].id <= teams[j].id,
{
    assert(!ahead(teams[j], teams[i]));
}

} // verus!
