//! How many teams have opened, tried and solved a puzzle.
use vstd::prelude::*;

use crate::db::round::RbPuzzleSolveStatsRow;

verus! {

/// The state of a puzzle for a team.
#[derive(Debug, Clone, Copy, PartialEq, Eq, Structural)]
pub struct TeamPuzzleRow {
    pub team_id: i32,
    pub puzzle_id: i32,
    pub state: i16,
    pub is_banned: bool,
}

/// An answer of a team.
#[derive(Debug, Clone, Copy, PartialEq, Eq, Structural)]
pub struct AnswerRow {
    pub team_id: i32,
    pub puzzle_id: i32,
    pub ignored: bool,
}

/// Whether a team has given an answer that counts.
pub open spec fn has_answered(answers: Seq<AnswerRow>, team_id: i32, puzzle_id: i32) -> bool {
    exists|i: int|
        0 <= i < answers.len() && (#[trigger] answers[i]).team_id == team_id && answers[i].puzzle_id
            == puzzle_id && !answers[i].ignored
}

/// What is counted.
pub enum Counted {
    Solved,
    Tried,
    Unlocked,
}

/// Whether a team counts: banned teams, and teams to which the puzzle has not opened, do not.
pub open spec fn counts(
    what: Counted,
    row: TeamPuzzleRow,
    answers: Seq<AnswerRow>,
    puzzle_id: i32,
) -> bool {
    row.puzzle_id == puzzle_id && !row.is_banned && row.state >= 0 && match what {
        Counted::Solved => row.state == 1,
        Counted::Tried => row.state == 1 || has_answered(answers, row.team_id, puzzle_id),
        Counted::Unlocked => true,
    }
}

/// How many teams count.
pub open spec fn count(
    what: Counted,
    rows: Seq<TeamPuzzleRow>,
    answers: Seq<AnswerRow>,
    puzzle_id: i32,
) -> nat
    decreases rows.len(),
{
    if rows.len() == 0 {
        0
    } else {
        count(what, rows.drop_last(), answers, puzzle_id) + (if counts(
            what,
            rows.last(),
            answers,
            puzzle_id,
        ) {
            1nat
        } else {
            0nat
        })
    }
}

fn is_answered(answers: &Vec<AnswerRow>, team_id: i32, puzzle_id: i32) -> (r: bool)
    ensures
        r == has_answered(answers@, team_id, puzzle_id),
{
    let mut i: usize = 0;
    while i < answers.len()
        invariant
            i <= answers@.len(),
            forall|k: int|
                0 <= k < i ==> !((#[trigger] answers@[k]).team_id == team_id && answers@[k].puzzle_id
                    == puzzle_id && !answers@[k].ignored),
        decreases answers@.len() - i,
    {
        let answer = answers[i];
        if answer.team_id == team_id && answer.puzzle_id == puzzle_id && !answer.ignored {
            return true;
        }
        i += 1;
    }
    false
}

/// How many teams have opened, tried and solved a puzzle.
pub fn solve_stats(
    rows: &Vec<TeamPuzzleRow>,
    answers: &Vec<AnswerRow>,
    puzzle_id: i32,
) -> (r: RbPuzzleSolveStatsRow)
    requires
        rows@.len() <= i64::MAX,
    ensures
        r.puzzle_id == puzzle_id,
        r.solved == count(Counted::Solved, rows@, answers@, puzzle_id),
        r.tried == count(Counted::Tried, rows@, answers@, puzzle_id),
        r.unlocked == count(Counted::Unlocked, rows@, answers@, puzzle_id),
{
    let mut solved: i64 = 0;
    let mut tried: i64 = 0;
    let mut unlocked: i64 = 0;
    let mut i: usize = 0;
    while i < rows.len()
        invariant
            i <= rows@.len() <= i64::MAX,
            solved == count(Counted::Solved, rows@.take(i as int), answers@, puzzle_id),
            tried == count(Counted::Tried, rows@.take(i as int), answers@, puzzle_id),
            unlocked == count(Counted::Unlocked, rows@.take(i as int), answers@, puzzle_id),
            0 <= solved <= i,
            0 <= tried <= i,
            0 <= unlocked <= i,
        decreases rows@.len() - i,
    {
        let row = rows[i];
        assert(rows@.take(i + 1).drop_last() =~= rows@.take(i as int));
        assert(rows@.take(i + 1).last() == row);
        if row.puzzle_id == puzzle_id && !row.is_banned && row.state >= 0 {
            unlocked += 1;
            if row.state == 1 {
                solved += 1;
            }
            if row.state == 1 || is_answered(answers, row.team_id, puzzle_id) {
                tried += 1;
            }
        }
        i += 1;
    }
    assert(rows@.take(i as int) =~= rows@);
    RbPuzzleSolveStatsRow { puzzle_id, solved, tried, unlocked }
}

/// No more teams solve a puzzle than try it, and no more try it than have opened it.
pub proof fn solved_is_tried_is_unlocked(
    rows: Seq<TeamPuzzleRow>,
    answers: Seq<AnswerRow>,
    puzzle_id: i32,
)
    ensures
        count(Counted::Solved, rows, answers, puzzle_id) <= count(
            Counted::Tried,
            rows,
            answers,
            puzzle_id,
        ),
        count(Counted::Tried, rows, answers, puzzle_id) <= count(
            Counted::Unlocked,
            rows,
            answers,
            puzzle_id,
        ),
    decreases rows.len(),
{
    if rows.len() > 0 {
        solved_is_tried_is_unlocked(rows.drop_last(), answers, puzzle_id);
    }
}

/// More answers of a team that has answered already count for nothing.
pub proof fn teams_count_once(
    rows: Seq<TeamPuzzleRow>,
    answers: Seq<AnswerRow>,
    more: AnswerRow,
    puzzle_id: i32,
)
    requires
        more.ignored || has_answered(answers, more.team_id, more.puzzle_id),
    ensures
        count(Counted::Tried, rows, answers.push(more), puzzle_id) == count(
            Counted::Tried,
            rows,
            answers,
            puzzle_id,
        ),
    decreases rows.len(),
{
    if rows.len() > 0 {
        teams_count_once(rows.drop_last(), answers, more, puzzle_id);
        let team = rows.last().team_id;
        let all = answers.push(more);
        if has_answered(answers, team, puzzle_id) {
            let k = choose|k: int|
                0 <= k < answers.len() && (#[trigger] answers[k]).team_id == team
                    && answers[k].puzzle_id == puzzle_id && !answers[k].ignored;
            assert(all[k] == answers[k]);
        }
        if has_answered(all, team, puzzle_id) {
            let k = choose|k: int|
                0 <= k < all.len() && (#[trigger] all[k]).team_id == team && all[k].puzzle_id
                    == puzzle_id && !all[k].ignored;
            if k < answers.len() {
                assert(all[k] == answers[k]);
            }
        }
    }
}

/// The counts of the puzzles that have opened to some team.
pub fn get_solve_stats_for_round(
    puzzle_ids: &Vec<i32>,
    rows: &Vec<TeamPuzzleRow>,
    answers: &Vec<AnswerRow>,
) -> (r: Vec<RbPuzzleSolveStatsRow>)
    requires
        rows@.len() <= i64::MAX,
    ensures
        r@ == stats_of(puzzle_ids@, rows@, answers@),
{
    let mut out: Vec<RbPuzzleSolveStatsRow> = Vec::new();
    let mut i: usize = 0;
    while i < puzzle_ids.len()
        invariant
            i <= puzzle_ids@.len(),
            rows@.len() <= i64::MAX,
            out@ == stats_of(puzzle_ids@.take(i as int), rows@, answers@),
        decreases puzzle_ids@.len() - i,
    {
        assert(puzzle_ids@.take(i + 1).drop_last() =~= puzzle_ids@.take(i as int));
        assert(puzzle_ids@.take(i + 1).last() == puzzle_ids@[i as int]);
        let stats = solve_stats(rows, answers, puzzle_ids[i]);
        if stats.unlocked > 0 {
            out.push(stats);
        }
        i += 1;
    }
    assert(puzzle_ids@.take(i as int) =~= puzzle_ids@);
    out
}

/// The counts of the puzzles that have opened to some team, in the order of the puzzles.
pub open spec fn stats_of(
    puzzle_ids: Seq<i32>,
    rows: Seq<TeamPuzzleRow>,
    answers: Seq<AnswerRow>,
) -> Seq<RbPuzzleSolveStatsRow>
    decreases puzzle_ids.len(),
{
    if puzzle_ids.len() == 0 {
        Seq::empty()
    } else {
        let id = puzzle_ids.last();
        let before = stats_of(puzzle_ids.drop_last(), rows, answers);
        if count(Counted::Unlocked, rows, answers, id) == 0 {
            before
        } else {
            before.push(
                RbPuzzleSolveStatsRow {
                    puzzle_id: id,
                    solved: count(Counted::Solved, rows, answers, id) as i64,
                    tried: count(Counted::Tried, rows, answers, id) as i64,
                    unlocked: count(Counted::Unlocked, rows, answers, id) as i64,
                },
            )
        }
    }
}

/// An answer counts for the team that gave it and the puzzle that it was given to, unless it is
/// ignored, and for no other.
pub proof fn answers_count_for_their_puzzle(
    answers: Seq<AnswerRow>,
    more: AnswerRow,
    team_id: i32,
    puzzle_id: i32,
)
    ensures
        !has_answered(Seq::empty(), team_id, puzzle_id),
        has_answered(answers.push(more), team_id, puzzle_id) <==> has_answered(
            answers,
            team_id,
            puzzle_id,
        ) || (more.team_id == team_id && more.puzzle_id == puzzle_id && !more.ignored),
{
    let all = answers.push(more);
    assert(all[answers.len() as int] == more);
    if has_answered(answers, team_id, puzzle_id) {
        let k = choose|k: int|
            0 <= k < answers.len() && (#[trigger] answers[k]).team_id == team_id
                && answers[k].puzzle_id == puzzle_id && !answers[k].ignored;
        assert(all[k] == answers[k]);
    }
    if has_answered(all, team_id, puzzle_id) {
        let k = choose|k: int|
            0 <= k < all.len() && (#[trigger] all[k]).team_id == team_id && all[k].puzzle_id
                == puzzle_id && !all[k].ignored;
        if k < answers.len() {
            assert(answers[k] == all[k]);
        }
    }
}

/// Answers to other puzzles do not matter.
pub proof fn answers_to_other_puzzles_do_not_matter(
    rows: Seq<TeamPuzzleRow>,
    answers: Seq<AnswerRow>,
    more: AnswerRow,
    puzzle_id: i32,
)
    requires
        more.puzzle_id != puzzle_id,
    ensures
        count(Counted::Tried, rows, answers.push(more), puzzle_id) == count(
            Counted::Tried,
            rows,
            answers,
            puzzle_id,
        ),
    decreases rows.len(),
{
    if rows.len() > 0 {
        answers_to_other_puzzles_do_not_matter(rows.drop_last(), answers, more, puzzle_id);
        answers_count_for_their_puzzle(answers, more, rows.last().team_id, puzzle_id);
    }
}

/// Where nobody has answered a puzzle, only those who have solved it have tried it.
pub proof fn unanswered_puzzles_are_tried_by_solvers(
    rows: Seq<TeamPuzzleRow>,
    answers: Seq<AnswerRow>,
    puzzle_id: i32,
)
    requires
        forall|i: int| 0 <= i < answers.len() ==> (#[trigger] answers[i]).puzzle_id != puzzle_id,
    ensures
        count(Counted::Tried, rows, answers, puzzle_id) == count(
            Counted::Solved,
            rows,
            answers,
            puzzle_id,
        ),
    decreases rows.len(),
{
    if rows.len() > 0 {
        unanswered_puzzles_are_tried_by_solvers(rows.drop_last(), answers, puzzle_id);
    }
}

/// A team counts once for a puzzle that is open to it and never where it is banned: among those to
/// whom the puzzle is open in any case, among those who have solved it where its state is 1, and
/// among those who have tried it where it has solved it or given an answer that counts.
pub proof fn each_team_is_counted(
    rows: Seq<TeamPuzzleRow>,
    row: TeamPuzzleRow,
    answers: Seq<AnswerRow>,
    puzzle_id: i32,
)
    ensures
        forall|what: Counted| #[trigger] count(what, Seq::empty(), answers, puzzle_id) == 0,
        ({
            let open = row.puzzle_id == puzzle_id && !row.is_banned && row.state >= 0;
            let answered = exists|i: int|
                0 <= i < answers.len() && (#[trigger] answers[i]).team_id == row.team_id
                    && answers[i].puzzle_id == puzzle_id && !answers[i].ignored;
            let all = rows.push(row);
            &&& count(Counted::Unlocked, all, answers, puzzle_id) - count(
                Counted::Unlocked,
                rows,
                answers,
                puzzle_id,
            ) == (if open {
                1int
            } else {
                0
            })
            &&& count(Counted::Solved, all, answers, puzzle_id) - count(
                Counted::Solved,
                rows,
                answers,
                puzzle_id,
            ) == (if open && row.state == 1 {
                1int
            } else {
                0
            })
            &&& count(Counted::Tried, all, answers, puzzle_id) - count(
                Counted::Tried,
                rows,
                answers,
                puzzle_id,
            ) == (if open && (row.state == 1 || answered) {
                1int
            } else {
                0
            })
        }),
{
    assert(rows.push(row).drop_last() =~= rows);
}

/// The counts of a round name a puzzle exactly where it is one of the round and open to some team,
/// with the counts of that puzzle.
pub proof fn counts_are_told_of_open_puzzles(
    puzzle_ids: Seq<i32>,
    id: i32,
    rows: Seq<TeamPuzzleRow>,
    answers: Seq<AnswerRow>,
)
    requires
        rows.len() <= i64::MAX,
    ensures
        stats_of(Seq::empty(), rows, answers).len() == 0,
        ({
            let before = stats_of(puzzle_ids, rows, answers);
            let after = stats_of(puzzle_ids.push(id), rows, answers);
            if count(Counted::Unlocked, rows, answers, id) == 0 {
                after == before
            } else {
                &&& after.len() == before.len() + 1
                &&& after.drop_last() == before
                &&& after.last().puzzle_id == id
                &&& after.last().solved == count(Counted::Solved, rows, answers, id)
                &&& after.last().tried == count(Counted::Tried, rows, answers, id)
                &&& after.last().unlocked == count(Counted::Unlocked, rows, answers, id)
            }
        }),
{
    assert(puzzle_ids.push(id).drop_last() =~= puzzle_ids);
    lemma_count_fits(rows, answers, id);
    assert(stats_of(puzzle_ids.push(id), rows, answers).drop_last() =~= stats_of(
        puzzle_ids,
        rows,
        answers,
    ) || count(Counted::Unlocked, rows, answers, id) == 0);
}

proof fn lemma_count_fits(rows: Seq<TeamPuzzleRow>, answers: Seq<AnswerRow>, puzzle_id: i32)
    ensures
        count(Counted::Unlocked, rows, answers, puzzle_id) <= rows.len(),
        count(Counted::Tried, rows, answers, puzzle_id) <= rows.len(),
        count(Counted::Solved, rows, answers, puzzle_id) <= rows.len(),
    decreases rows.len(),
{
    if rows.len() > 0 {
        lemma_count_fits(rows.drop_last(), answers, puzzle_id);
    }
}

} // verus!
