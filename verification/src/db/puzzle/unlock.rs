//! Which puzzles open to a team, and which hints.
use std::sync::Arc;

use vstd::prelude::*;

use crate::expr::ast;
use crate::db::event_log::{puzzle_value, EventLogInput, EventRefs};
use crate::db::event_log;
use crate::db::states::{GateIndex, PuzzleRow, RbPuzzleStates, Reading, RoundRow};
use crate::db::states;
use crate::error::RbInternalError;
use crate::expr::{compile_gate_expr, compile_gate_expr_uncached, CompileCache};
use crate::expr;
use crate::expr::ast::{eval_compiled, Gate, GateExpr};
use crate::expr::types;
use crate::expr::types::{Name, Progress, PuzzleStates};
use crate::ids;
use crate::json;
use crate::json::Fields;

verus! {

/// How the rows of a game are read when puzzles are unlocked.
pub open spec fn unlock_reading() -> Reading {
    Reading { negative_is_zero: true, counts_opener: false }
}

/// How the rows of a game are read when hints are enabled.
pub open spec fn hint_reading() -> Reading {
    Reading { negative_is_zero: false, counts_opener: false }
}

/// A team, and one of the puzzles that it has solved, if any.
#[derive(Debug, Clone, Copy, PartialEq, Eq, Structural)]
pub struct TeamSolvedRow {
    pub game_id: i32,
    pub is_locked: bool,
    pub puzzle_id: Option<i32>,
}

/// The puzzles that the rows of a team name as solved.
pub open spec fn solved_in(rows: Seq<TeamSolvedRow>) -> Seq<i32>
    decreases rows.len(),
{
    if rows.len() == 0 {
        Seq::empty()
    } else {
        match rows.last().puzzle_id {
            Some(id) => solved_in(rows.drop_last()).push(id),
            None => solved_in(rows.drop_last()),
        }
    }
}

/// Whether a puzzle opens to a team: it has a condition that compiles and holds, and the team has
/// not solved it.
pub open spec fn opens(row: PuzzleRow, m: Progress) -> bool {
    &&& row.unlock_cond matches Some(text)
    &&& expr::gate_in(text@) matches Ok(g)
    &&& !m.solved.contains(states::nonnegative(row.id))
    &&& ast::holds(m, g)
}

/// The puzzles that open to a team, in the order of the rows.
pub open spec fn unlocks_of(rows: Seq<PuzzleRow>, m: Progress) -> Seq<i32>
    decreases rows.len(),
{
    if rows.len() == 0 {
        Seq::empty()
    } else if opens(rows.last(), m) {
        unlocks_of(rows.drop_last(), m).push(rows.last().id)
    } else {
        unlocks_of(rows.drop_last(), m)
    }
}

/// The puzzles whose condition does not compile, in the order of the rows, with what is wrong.
pub open spec fn rejects_of(rows: Seq<PuzzleRow>) -> Seq<(i32, Seq<char>)>
    decreases rows.len(),
{
    if rows.len() == 0 {
        Seq::empty()
    } else {
        let rest = rejects_of(rows.drop_last());
        match rows.last().unlock_cond {
            Some(text) => match expr::gate_in(text@) {
                Err(f) => rest.push((rows.last().id, expr::fault_text(f))),
                Ok(_) => rest,
            },
            None => rest,
        }
    }
}

pub open spec fn rejects_view(v: Seq<(i32, Arc<str>)>) -> Seq<(i32, Seq<char>)> {
    Seq::new(v.len(), |i: int| (v[i].0, (*v[i].1)@))
}

/// The puzzles that open to a team, and those whose condition does not compile.
pub struct Unlocks {
    pub unlocks: Vec<i32>,
    pub rejects: Vec<(i32, Arc<str>)>,
}

fn solved_puzzles(rows: &Vec<TeamSolvedRow>) -> (r: Vec<i32>)
    ensures
        r@ == solved_in(rows@),
{
    let mut out: Vec<i32> = Vec::new();
    let mut i: usize = 0;
    while i < rows.len()
        invariant
            i <= rows@.len(),
            out@ == solved_in(rows@.take(i as int)),
        decreases rows@.len() - i,
    {
        proof {
            assert(rows@.take(i + 1).drop_last() == rows@.take(i as int));
            assert(rows@.take(i + 1).last() == rows@[i as int]);
        }
        if let Some(id) = rows[i].puzzle_id {
            out.push(id);
        }
        i += 1;
    }
    assert(rows@.take(i as int) == rows@);
    out
}

fn matching_puzzles(
    cache: &mut CompileCache<GateExpr>,
    puzzles: &Vec<PuzzleRow>,
    state: &RbPuzzleStates,
) -> (r: Unlocks)
    requires
        expr::gates_right(old(cache)@),
    ensures
        expr::gates_right(final(cache)@),
        r.unlocks@ == unlocks_of(puzzles@, state.progress()),
        rejects_view(r.rejects@) == rejects_of(puzzles@),
{
    let ghost m = state.progress();
    let mut unlocks: Vec<i32> = Vec::new();
    let mut rejects: Vec<(i32, Arc<str>)> = Vec::new();
    let mut i: usize = 0;
    assert(rejects_view(rejects@) =~= Seq::<(i32, Seq<char>)>::empty());
    while i < puzzles.len()
        invariant
            i <= puzzles@.len(),
            expr::gates_right(cache@),
            m == state.progress(),
            unlocks@ == unlocks_of(puzzles@.take(i as int), m),
            rejects_view(rejects@) == rejects_of(puzzles@.take(i as int)),
        decreases puzzles@.len() - i,
    {
        let row = &puzzles[i];
        let ghost before = rejects@;
        proof {
            assert(puzzles@.take(i + 1).drop_last() == puzzles@.take(i as int));
            assert(puzzles@.take(i + 1).last() == *row);
        }
        if let Some(text) = &row.unlock_cond {
            match compile_gate_expr(cache, text.as_str()) {
                Ok(gate) => {
                    let id: u32 = if row.id >= 0 {
                        row.id as u32
                    } else {
                        0
                    };
                    if !state.is_solved(id) && eval_compiled(state, &gate) {
                        unlocks.push(row.id);
                    }
                },
                Err(error) => {
                    rejects.push((row.id, error));
                    assert(rejects_view(rejects@) =~= rejects_view(before).push(
                        (row.id, (*error)@),
                    ));
                },
            }
        }
        i += 1;
    }
    assert(puzzles@.take(i as int) == puzzles@);
    Unlocks { unlocks, rejects }
}

/// Finds the puzzles that open to a team. A team without a row has none.
pub fn unlock_new_puzzles(
    cache: &mut CompileCache<GateExpr>,
    team: &Vec<TeamSolvedRow>,
    triggers: &Vec<(i32, String)>,
    rounds: &Vec<RoundRow>,
    puzzles: &Vec<PuzzleRow>,
) -> (r: Unlocks)
    requires
        expr::gates_right(old(cache)@),
    ensures
        expr::gates_right(final(cache)@),
        team@.len() == 0 ==> r.unlocks@.len() == 0 && r.rejects@.len() == 0,
        team@.len() > 0 ==> {
            &&& r.unlocks@ == unlocks_of(
                puzzles@,
                states::rows_progress(
                    solved_in(team@),
                    rounds@,
                    puzzles@,
                    unlock_reading(),
                    triggers@,
                    team@[0].is_locked,
                ),
            )
            &&& rejects_view(r.rejects@) == rejects_of(puzzles@)
        },
{
    if team.len() == 0 {
        return Unlocks { unlocks: Vec::new(), rejects: Vec::new() };
    }
    let index = GateIndex::build(
        rounds,
        puzzles,
        Reading { negative_is_zero: true, counts_opener: false },
    );
    let state = RbPuzzleStates {
        solved: solved_puzzles(team),
        index: &index,
        triggers,
        game_started: team[0].is_locked,
    };
    matching_puzzles(cache, puzzles, &state)
}

/// A puzzle that opens to a team is one of the game's, has a condition that holds, and was not
/// solved.
pub proof fn only_unsolved_puzzles_open(rows: Seq<PuzzleRow>, m: Progress, id: i32)
    requires
        unlocks_of(rows, m).contains(id),
    ensures
        exists|i: int| 0 <= i < rows.len() && (#[trigger] rows[i]).id == id && opens(rows[i], m),
        !m.solved.contains(states::nonnegative(id)),
    decreases rows.len(),
{
    let all = unlocks_of(rows, m);
    let rest = unlocks_of(rows.drop_last(), m);
    let k = choose|k: int| 0 <= k < all.len() && all[k] == id;
    if opens(rows.last(), m) && k == all.len() - 1 {
        assert(rows[rows.len() - 1].id == id);
    } else {
        assert(rest[k] == id);
        only_unsolved_puzzles_open(rows.drop_last(), m, id);
        let i = choose|i: int|
            0 <= i < rows.drop_last().len() && (#[trigger] rows.drop_last()[i]).id == id && opens(
                rows.drop_last()[i],
                m,
            );
        assert(rows[i].id == id && opens(rows[i], m));
    }
}

/// Every puzzle whose condition holds and that is not solved opens.
pub proof fn every_due_puzzle_opens(rows: Seq<PuzzleRow>, m: Progress, i: int)
    requires
        0 <= i < rows.len(),
        opens(rows[i], m),
    ensures
        unlocks_of(rows, m).contains(rows[i].id),
    decreases rows.len(),
{
    let all = unlocks_of(rows, m);
    if i == rows.len() - 1 {
        assert(all[all.len() - 1] == rows[i].id);
    } else {
        every_due_puzzle_opens(rows.drop_last(), m, i);
        let rest = unlocks_of(rows.drop_last(), m);
        let k = choose|k: int| 0 <= k < rest.len() && rest[k] == rows[i].id;
        assert(all[k] == rows[i].id);
    }
}

/// A puzzle of a team, as it is stored: it is closed below 0, open at 0 and solved from 1 on.
#[derive(Debug, Clone, Copy, PartialEq, Eq, Structural)]
pub struct StoredPuzzle {
    pub puzzle_id: i32,
    pub state: i16,
}

/// Whether a team has a puzzle, in whatever state.
pub open spec fn has_puzzle(stored: Seq<StoredPuzzle>, id: i32) -> bool {
    exists|k: int| 0 <= k < stored.len() && (#[trigger] stored[k]).puzzle_id == id
}

/// The puzzles among those that are due which a team has not got yet, each once.
pub open spec fn newly_open(due: Seq<i32>, stored: Seq<StoredPuzzle>) -> Seq<i32>
    decreases due.len(),
{
    if due.len() == 0 {
        Seq::empty()
    } else {
        let rest = newly_open(due.drop_last(), stored);
        if has_puzzle(stored, due.last()) || rest.contains(due.last()) {
            rest
        } else {
            rest.push(due.last())
        }
    }
}

/// The puzzles of a team with more of them, open, behind those that it has.
pub open spec fn with_open(stored: Seq<StoredPuzzle>, opened: Seq<i32>) -> Seq<StoredPuzzle> {
    stored + opened.map_values(|id: i32| StoredPuzzle { puzzle_id: id, state: 0 })
}

/// The puzzles that a team has solved.
pub open spec fn solved_among(stored: Seq<StoredPuzzle>) -> Seq<i32>
    decreases stored.len(),
{
    if stored.len() == 0 {
        Seq::empty()
    } else if stored.last().state >= 1 {
        solved_among(stored.drop_last()).push(stored.last().puzzle_id)
    } else {
        solved_among(stored.drop_last())
    }
}

/// The puzzles that have opened to a team, and all that it has after that.
#[derive(Debug)]
pub struct OpenedPuzzles {
    pub opened: Vec<i32>,
    pub stored: Vec<StoredPuzzle>,
}

fn is_stored(stored: &Vec<StoredPuzzle>, id: i32) -> (r: bool)
    ensures
        r == has_puzzle(stored@, id),
{
    let mut i: usize = 0;
    while i < stored.len()
        invariant
            i <= stored@.len(),
            forall|k: int| 0 <= k < i ==> (#[trigger] stored@[k]).puzzle_id != id,
        decreases stored@.len() - i,
    {
        if stored[i].puzzle_id == id {
            assert(stored@[i as int].puzzle_id == id);
            return true;
        }
        i += 1;
    }
    false
}

/// Opens the puzzles that are due to a team. Those that it has already stay as they are.
pub fn open_puzzles(due: &Vec<i32>, stored: Vec<StoredPuzzle>) -> (r: OpenedPuzzles)
    ensures
        r.opened@ == newly_open(due@, stored@),
        r.stored@ == with_open(stored@, r.opened@),
{
    let ghost before = stored@;
    let mut opened: Vec<i32> = Vec::new();
    let mut i: usize = 0;
    while i < due.len()
        invariant
            i <= due@.len(),
            opened@ == newly_open(due@.take(i as int), stored@),
        decreases due@.len() - i,
    {
        assert(due@.take(i + 1).drop_last() =~= due@.take(i as int));
        assert(due@.take(i + 1).last() == due@[i as int]);
        if !is_stored(&stored, due[i]) && !ids::contains(&opened, due[i]) {
            opened.push(due[i]);
        }
        i += 1;
    }
    assert(due@.take(i as int) =~= due@);
    let mut rows = stored;
    let mut k: usize = 0;
    assert(rows@ =~= with_open(before, opened@.take(0)));
    while k < opened.len()
        invariant
            k <= opened@.len(),
            rows@ == with_open(before, opened@.take(k as int)),
        decreases opened@.len() - k,
    {
        rows.push(StoredPuzzle { puzzle_id: opened[k], state: 0 });
        assert(rows@ =~= with_open(before, opened@.take(k + 1)));
        k += 1;
    }
    assert(opened@.take(k as int) =~= opened@);
    OpenedPuzzles { opened, stored: rows }
}

/// What opens is what is due and not there yet, each puzzle once.
pub proof fn opened_puzzles_are_due_and_new(due: Seq<i32>, stored: Seq<StoredPuzzle>)
    ensures
        ids::distinct(newly_open(due, stored)),
        forall|id: i32| #[trigger]
            newly_open(due, stored).contains(id) <==> due.contains(id) && !has_puzzle(stored, id),
    decreases due.len(),
{
    if due.len() > 0 {
        let init = due.drop_last();
        let last = due[due.len() - 1];
        let rest = newly_open(init, stored);
        let all = newly_open(due, stored);
        opened_puzzles_are_due_and_new(init, stored);
        assert forall|id: i32| #[trigger] all.contains(id) <==> due.contains(id) && !has_puzzle(
            stored,
            id,
        ) by {
            assert(rest.contains(id) <==> init.contains(id) && !has_puzzle(stored, id));
            assert(due.contains(id) <==> init.contains(id) || id == last) by {
                if init.contains(id) {
                    assert(due[init.index_of(id)] == id);
                }
                if due.contains(id) && id != last {
                    assert(init[due.index_of(id)] == id);
                }
            }
            if rest.contains(id) {
                assert(all[rest.index_of(id)] == id);
            }
            if all.contains(id) && all != rest {
                let k = all.index_of(id);
                if k < rest.len() {
                    assert(rest[k] == id);
                }
                assert(all[rest.len() as int] == last);
            }
            if all != rest {
                assert(all[rest.len() as int] == last);
            }
        }
    }
}

/// The puzzles that open to a team are those of the game whose condition holds, that are not
/// solved, and that the team has not got yet.
pub proof fn new_puzzles_are_those_that_open(
    rows: Seq<PuzzleRow>,
    m: Progress,
    stored: Seq<StoredPuzzle>,
    id: i32,
)
    ensures
        newly_open(unlocks_of(rows, m), stored).contains(id) <==> !has_puzzle(stored, id) && (exists|
            i: int,
        |
            0 <= i < rows.len() && (#[trigger] rows[i]).id == id && opens(rows[i], m)),
{
    opened_puzzles_are_due_and_new(unlocks_of(rows, m), stored);
    if unlocks_of(rows, m).contains(id) {
        only_unsolved_puzzles_open(rows, m, id);
    }
    if exists|i: int| 0 <= i < rows.len() && (#[trigger] rows[i]).id == id && opens(rows[i], m) {
        let i = choose|i: int|
            0 <= i < rows.len() && (#[trigger] rows[i]).id == id && opens(rows[i], m);
        every_due_puzzle_opens(rows, m, i);
    }
}

proof fn lemma_solved_with_open(stored: Seq<StoredPuzzle>, opened: Seq<i32>)
    ensures
        solved_among(with_open(stored, opened)) == solved_among(stored),
    decreases opened.len(),
{
    let all = with_open(stored, opened);
    if opened.len() == 0 {
        assert(all =~= stored);
    } else {
        assert(all.drop_last() =~= with_open(stored, opened.drop_last()));
        lemma_solved_with_open(stored, opened.drop_last());
    }
}

/// Once the puzzles that are due have been opened to a team, opening them again opens nothing.
/// Nothing that the team had has changed, and it has solved what it had solved: so the same puzzles
/// are due as before.
pub proof fn opening_again_opens_nothing(due: Seq<i32>, stored: Seq<StoredPuzzle>)
    ensures
        ({
            let after = with_open(stored, newly_open(due, stored));
            &&& newly_open(due, after) == Seq::<i32>::empty()
            &&& stored.is_prefix_of(after)
            &&& solved_among(after) == solved_among(stored)
        }),
{
    let opened = newly_open(due, stored);
    let after = with_open(stored, opened);
    lemma_solved_with_open(stored, opened);
    opened_puzzles_are_due_and_new(due, stored);
    opened_puzzles_are_due_and_new(due, after);
    assert(after.take(stored.len() as int) =~= stored);
    let again = newly_open(due, after);
    if again.len() > 0 {
        let id = again[0];
        assert(again.contains(id));
        if has_puzzle(stored, id) {
            let k = choose|k: int| 0 <= k < stored.len() && (#[trigger] stored[k]).puzzle_id == id;
            assert(after[k].puzzle_id == id);
        } else {
            assert(opened.contains(id));
            let k = opened.index_of(id);
            assert(after[stored.len() + k].puzzle_id == id);
        }
    }
    assert(again =~= Seq::<i32>::empty());
}

/// The event of a puzzle that has opened to a team.
pub fn puzzle_unlocked(game_id: i32, team_id: i32, puzzle_id: i32, round_id: i32, title: &str) -> (r:
    EventLogInput)
    ensures
        r.is_team_event(
            "puzzle.unlocked"@,
            (EventRefs {
                game_id: Some(game_id),
                team_id: Some(team_id),
                puzzle_id: Some(puzzle_id),
                round_id: Some(round_id),
                ..event_log::no_refs()
            }),
            json::object_of(seq![("puzzle"@, event_log::puzzle_json(puzzle_id as int, title@))]),
        ),
{
    let fields = Fields::new().put("puzzle", puzzle_value(puzzle_id, title));
    assert(fields.pairs() =~= seq![("puzzle"@, event_log::puzzle_json(puzzle_id as int, title@))]);
    let mut event = EventLogInput::team_activity("puzzle.unlocked", fields.object());
    event.game_id = Some(game_id);
    event.team_id = Some(team_id);
    event.puzzle_id = Some(puzzle_id);
    event.round_id = Some(round_id);
    event
}

/// A team that has not got a puzzle, and one of the puzzles that it has solved, if any.
#[derive(Debug, Clone, Copy, PartialEq, Eq, Structural)]
pub struct CandidateRow {
    pub id: i32,
    pub is_locked: bool,
    pub solved_puzzle_id: Option<i32>,
}

/// A trigger that a team has set off.
#[derive(Debug)]
pub struct TriggerRow {
    pub team_id: i32,
    pub puzzle_id: i32,
    pub trigger_key: String,
}

/// A team with all the puzzles that it has solved.
pub struct Candidate {
    pub id: i32,
    pub is_locked: bool,
    pub solved: Seq<i32>,
}

pub open spec fn with_solved(solved: Seq<i32>, row: CandidateRow) -> Seq<i32> {
    match row.solved_puzzle_id {
        Some(id) => solved.push(id),
        None => solved,
    }
}

/// The teams of some rows: rows of one team that stand side by side are taken together.
pub open spec fn candidates_of(rows: Seq<CandidateRow>) -> Seq<Candidate>
    decreases rows.len(),
{
    if rows.len() == 0 {
        Seq::empty()
    } else {
        let rest = candidates_of(rows.drop_last());
        let row = rows.last();
        if rest.len() > 0 && rest.last().id == row.id {
            rest.drop_last().push(
                Candidate { solved: with_solved(rest.last().solved, row), ..rest.last() },
            )
        } else {
            rest.push(
                Candidate {
                    id: row.id,
                    is_locked: row.is_locked,
                    solved: with_solved(Seq::empty(), row),
                },
            )
        }
    }
}

/// The triggers of one team.
pub open spec fn team_triggers(rows: Seq<TriggerRow>, team_id: i32) -> Seq<(i32, Seq<char>)>
    decreases rows.len(),
{
    if rows.len() == 0 {
        Seq::empty()
    } else {
        let rest = team_triggers(rows.drop_last(), team_id);
        if rows.last().team_id == team_id {
            rest.push((rows.last().puzzle_id, rows.last().trigger_key@))
        } else {
            rest
        }
    }
}

/// A team's progress, with its triggers given by what they say.
pub open spec fn candidate_progress(
    c: Candidate,
    rounds: Seq<RoundRow>,
    puzzles: Seq<PuzzleRow>,
    triggers: Seq<TriggerRow>,
) -> Progress {
    let own = team_triggers(triggers, c.id);
    Progress {
        triggered: Set::new(
            |t: (u32, Seq<char>)|
                exists|i: int|
                    0 <= i < own.len() && #[trigger] own[i] == (
                        states::stored_id(t.0),
                        t.1,
                    ),
        ),
        ..states::rows_progress(c.solved, rounds, puzzles, unlock_reading(), Seq::empty(), c.is_locked)
    }
}

/// The teams that a condition, if there is one, lets in.
pub open spec fn eligible_teams(
    teams: Seq<Candidate>,
    gate: Option<Gate>,
    rounds: Seq<RoundRow>,
    puzzles: Seq<PuzzleRow>,
    triggers: Seq<TriggerRow>,
) -> Seq<i32>
    decreases teams.len(),
{
    if teams.len() == 0 {
        Seq::empty()
    } else {
        let rest = eligible_teams(teams.drop_last(), gate, rounds, puzzles, triggers);
        let c = teams.last();
        if gate matches Some(g) ==> ast::holds(candidate_progress(c, rounds, puzzles, triggers), g) {
            rest.push(c.id)
        } else {
            rest
        }
    }
}

fn triggers_of_team(rows: &Vec<TriggerRow>, team_id: i32) -> (r: Vec<(i32, String)>)
    ensures
        r@.len() == team_triggers(rows@, team_id).len(),
        forall|i: int|
            0 <= i < r@.len() ==> ((#[trigger] r@[i]).0, r@[i].1@) == team_triggers(
                rows@,
                team_id,
            )[i],
{
    let mut out: Vec<(i32, String)> = Vec::new();
    let mut i: usize = 0;
    while i < rows.len()
        invariant
            i <= rows@.len(),
            out@.len() == team_triggers(rows@.take(i as int), team_id).len(),
            forall|k: int|
                0 <= k < out@.len() ==> ((#[trigger] out@[k]).0, out@[k].1@) == team_triggers(
                    rows@.take(i as int),
                    team_id,
                )[k],
        decreases rows@.len() - i,
    {
        proof {
            assert(rows@.take(i + 1).drop_last() == rows@.take(i as int));
            assert(rows@.take(i + 1).last() == rows@[i as int]);
        }
        if rows[i].team_id == team_id {
            out.push((rows[i].puzzle_id, rows[i].trigger_key.clone()));
        }
        i += 1;
    }
    assert(rows@.take(i as int) == rows@);
    out
}

/// What an optional condition says.
pub open spec fn said_gate(gate: Option<GateExpr>) -> Option<Gate> {
    match gate {
        Some(g) => Some(g@),
        None => None,
    }
}

fn is_eligible(
    id: i32,
    is_locked: bool,
    solved: &Vec<i32>,
    gate: &Option<GateExpr>,
    index: &GateIndex,
    triggers: &Vec<TriggerRow>,
    Ghost(rounds): Ghost<Seq<RoundRow>>,
    Ghost(puzzles): Ghost<Seq<PuzzleRow>>,
) -> (r: bool)
    requires
        index.indexes(rounds, puzzles, unlock_reading()),
    ensures
        r == (*gate matches Some(g) ==> ast::holds(
            candidate_progress(
                (Candidate { id, is_locked, solved: solved@ }),
                rounds,
                puzzles,
                triggers@,
            ),
            g@,
        )),
{
    match gate {
        None => true,
        Some(g) => {
            let own = triggers_of_team(triggers, id);
            let copy = solved.clone();
            assert(copy@ =~= solved@);
            let state = RbPuzzleStates {
                solved: copy,
                index,
                triggers: &own,
                game_started: is_locked,
            };
            proof {
                let c = Candidate { id, is_locked, solved: solved@ };
                let want = candidate_progress(c, rounds, puzzles, triggers@);
                let said = team_triggers(triggers@, id);
                assert forall|t: (u32, Seq<char>)|
                    state.progress().triggered.contains(t) == want.triggered.contains(t) by {
                    if state.progress().triggered.contains(t) {
                        let i = choose|i: int|
                            0 <= i < own@.len() && (#[trigger] own@[i]).0
                                == states::stored_id(t.0) && own@[i].1@ == t.1;
                        assert(said[i] == (own@[i].0, own@[i].1@));
                    }
                    if want.triggered.contains(t) {
                        let i = choose|i: int|
                            0 <= i < said.len() && #[trigger] said[i] == (
                                states::stored_id(t.0),
                                t.1,
                            );
                        assert(own@[i].0 == said[i].0);
                    }
                }
                assert(state.progress().triggered =~= want.triggered);
            }
            eval_compiled(&state, g)
        },
    }
}

/// Finds the teams, among those that have not got a puzzle, to which its condition opens it.
pub fn admin_unlock_puzzle_for_eligible_teams(
    rounds: &Vec<RoundRow>,
    puzzles: &Vec<PuzzleRow>,
    unlock_cond: Option<&str>,
    triggers: &Vec<TriggerRow>,
    candidates: &Vec<CandidateRow>,
) -> (r: Result<Vec<i32>, RbInternalError>)
    ensures
        match unlock_cond {
            None => r matches Ok(ids) && ids@ == eligible_teams(
                candidates_of(candidates@),
                None,
                rounds@,
                puzzles@,
                triggers@,
            ),
            Some(text) => match expr::gate_in(text@) {
                Err(f) => r matches Err(e) && e.text() == expr::fault_text(f),
                Ok(g) => r matches Ok(ids) && ids@ == eligible_teams(
                    candidates_of(candidates@),
                    Some(g),
                    rounds@,
                    puzzles@,
                    triggers@,
                ),
            },
        },
{
    let gate: Option<GateExpr> = match unlock_cond {
        None => None,
        Some(text) => match compile_gate_expr_uncached(text) {
            Err(e) => {
                return Err(RbInternalError::Other(e));
            },
            Ok(g) => Some(g),
        },
    };
    let ghost want = said_gate(gate);
    let index = GateIndex::build(
        rounds,
        puzzles,
        Reading { negative_is_zero: true, counts_opener: false },
    );
    let mut ids: Vec<i32> = Vec::new();
    if candidates.len() == 0 {
        return Ok(ids);
    }
    let mut id: i32 = candidates[0].id;
    let mut is_locked: bool = candidates[0].is_locked;
    let mut solved: Vec<i32> = Vec::new();
    if let Some(puzzle) = candidates[0].solved_puzzle_id {
        solved.push(puzzle);
    }
    let mut i: usize = 1;
    proof {
        reveal_with_fuel(candidates_of, 2);
        let first = candidates@.take(1);
        assert(first.drop_last() =~= Seq::<CandidateRow>::empty());
        assert(first.last() == candidates@[0]);
        assert(candidates_of(first).drop_last() =~= Seq::<Candidate>::empty());
    }
    while i < candidates.len()
        invariant
            1 <= i <= candidates@.len(),
            index.indexes(rounds@, puzzles@, unlock_reading()),
            want == said_gate(gate),
            ({
                let teams = candidates_of(candidates@.take(i as int));
                &&& teams.len() > 0
                &&& teams.last().id == id
                &&& teams.last().is_locked == is_locked
                &&& teams.last().solved == solved@
                &&& ids@ == eligible_teams(
                    teams.drop_last(),
                    want,
                    rounds@,
                    puzzles@,
                    triggers@,
                )
            }),
        decreases candidates@.len() - i,
    {
        let row = &candidates[i];
        let ghost teams = candidates_of(candidates@.take(i as int));
        proof {
            assert(candidates@.take(i + 1).drop_last() == candidates@.take(i as int));
            assert(candidates@.take(i + 1).last() == *row);
        }
        if row.id != id {
            let eligible = is_eligible(
                id,
                is_locked,
                &solved,
                &gate,
                &index,
                triggers,
                Ghost(rounds@),
                Ghost(puzzles@),
            );
            if eligible {
                ids.push(id);
            }
            id = row.id;
            is_locked = row.is_locked;
            solved = Vec::new();
            proof {
                let next = candidates_of(candidates@.take(i + 1));
                assert(next.drop_last() =~= teams);
            }
        }
        if let Some(puzzle) = row.solved_puzzle_id {
            solved.push(puzzle);
        }
        proof {
            let next = candidates_of(candidates@.take(i + 1));
            if row.id == teams.last().id {
                assert(next.drop_last() =~= teams.drop_last());
            }
        }
        i += 1;
    }
    let eligible = is_eligible(
        id,
        is_locked,
        &solved,
        &gate,
        &index,
        triggers,
        Ghost(rounds@),
        Ghost(puzzles@),
    );
    if eligible {
        ids.push(id);
    }
    assert(candidates@.take(i as int) == candidates@);
    Ok(ids)
}

/// The hints, among some with conditions, whose condition compiles and holds.
pub open spec fn enabled_in(pending: Seq<(i32, String)>, m: Progress) -> Seq<i32>
    decreases pending.len(),
{
    if pending.len() == 0 {
        Seq::empty()
    } else {
        let rest = enabled_in(pending.drop_last(), m);
        if expr::gate_in(pending.last().1@) matches Ok(g) && ast::holds(m, g) {
            rest.push(pending.last().0)
        } else {
            rest
        }
    }
}

/// Finds the hints, among some that are not enabled, that are to be enabled for a team.
pub fn refresh_team_hint_enablements(
    cache: &mut CompileCache<GateExpr>,
    pending: &Vec<(i32, String)>,
    solved: Vec<i32>,
    triggers: &Vec<(i32, String)>,
    rounds: &Vec<RoundRow>,
    puzzles: &Vec<PuzzleRow>,
    game_started: bool,
) -> (r: Vec<i32>)
    requires
        expr::gates_right(old(cache)@),
    ensures
        expr::gates_right(final(cache)@),
        r@ == enabled_in(
            pending@,
            states::rows_progress(solved@, rounds@, puzzles@, hint_reading(), triggers@, game_started),
        ),
{
    let ghost m = states::rows_progress(
        solved@,
        rounds@,
        puzzles@,
        hint_reading(),
        triggers@,
        game_started,
    );
    let index = GateIndex::build(
        rounds,
        puzzles,
        Reading { negative_is_zero: false, counts_opener: false },
    );
    let state = RbPuzzleStates { solved, index: &index, triggers, game_started };
    assert(state.progress() == m);
    let mut out: Vec<i32> = Vec::new();
    let mut i: usize = 0;
    while i < pending.len()
        invariant
            i <= pending@.len(),
            expr::gates_right(cache@),
            state.progress() == m,
            out@ == enabled_in(pending@.take(i as int), m),
        decreases pending@.len() - i,
    {
        proof {
            assert(pending@.take(i + 1).drop_last() == pending@.take(i as int));
            assert(pending@.take(i + 1).last() == pending@[i as int]);
        }
        if let Ok(gate) = compile_gate_expr(cache, pending[i].1.as_str()) {
            if eval_compiled(&state, &gate) {
                out.push(pending[i].0);
            }
        }
        i += 1;
    }
    assert(pending@.take(i as int) == pending@);
    out
}

/// A puzzle counts as solved exactly where a row of the team names it.
pub proof fn solved_puzzles_are_those_of_the_rows(
    rows: Seq<TeamSolvedRow>,
    v: i32,
)
    ensures
        solved_in(rows).contains(v) <==> exists|i: int|
            0 <= i < rows.len() && (#[trigger] rows[i]).puzzle_id == Some(v),
    decreases rows.len(),
{
    if rows.len() > 0 {
        let init = rows.drop_last();
        let last = rows[rows.len() - 1];
        let (rest, all) = (solved_in(init), solved_in(rows));
        solved_puzzles_are_those_of_the_rows(init, v);
        if rest.contains(v) {
            let k = choose|k: int| 0 <= k < rest.len() && rest[k] == v;
            assert(all[k] == v);
            let i = choose|i: int| 0 <= i < init.len() && (#[trigger] init[i]).puzzle_id == Some(v);
            assert(rows[i] == init[i]);
        }
        if all.contains(v) {
            let k = choose|k: int| 0 <= k < all.len() && all[k] == v;
            if k < rest.len() {
                assert(rest[k] == v);
            } else {
                assert(rows[rows.len() - 1] == last);
            }
        }
        if exists|i: int| 0 <= i < rows.len() && (#[trigger] rows[i]).puzzle_id == Some(v) {
            let i = choose|i: int| 0 <= i < rows.len() && (#[trigger] rows[i]).puzzle_id == Some(v);
            if i < init.len() {
                assert(init[i] == rows[i]);
            } else {
                assert(all[all.len() - 1] == v);
            }
        }
    }
}

/// A puzzle is reported exactly where it has a condition that does not compile, with what is wrong.
pub proof fn rejected_puzzles_do_not_compile(
    rows: Seq<PuzzleRow>,
    v: (i32, Seq<char>),
)
    ensures
        rejects_of(rows).contains(v) <==> exists|i: int|
            0 <= i < rows.len() && (#[trigger] rows[i]).unlock_cond is Some && expr::gate_in(rows[i].unlock_cond->0@) is Err && (rows[i].id, expr::fault_text(expr::gate_in(rows[i].unlock_cond->0@)->Err_0)) == v,
    decreases rows.len(),
{
    if rows.len() > 0 {
        let init = rows.drop_last();
        let last = rows[rows.len() - 1];
        let (rest, all) = (rejects_of(init), rejects_of(rows));
        rejected_puzzles_do_not_compile(init, v);
        if rest.contains(v) {
            let k = choose|k: int| 0 <= k < rest.len() && rest[k] == v;
            assert(all[k] == v);
            let i = choose|i: int| 0 <= i < init.len() && (#[trigger] init[i]).unlock_cond is Some && expr::gate_in(init[i].unlock_cond->0@) is Err && (init[i].id, expr::fault_text(expr::gate_in(init[i].unlock_cond->0@)->Err_0)) == v;
            assert(rows[i] == init[i]);
        }
        if all.contains(v) {
            let k = choose|k: int| 0 <= k < all.len() && all[k] == v;
            if k < rest.len() {
                assert(rest[k] == v);
            } else {
                assert(rows[rows.len() - 1] == last);
            }
        }
        if exists|i: int| 0 <= i < rows.len() && (#[trigger] rows[i]).unlock_cond is Some && expr::gate_in(rows[i].unlock_cond->0@) is Err && (rows[i].id, expr::fault_text(expr::gate_in(rows[i].unlock_cond->0@)->Err_0)) == v {
            let i = choose|i: int| 0 <= i < rows.len() && (#[trigger] rows[i]).unlock_cond is Some && expr::gate_in(rows[i].unlock_cond->0@) is Err && (rows[i].id, expr::fault_text(expr::gate_in(rows[i].unlock_cond->0@)->Err_0)) == v;
            if i < init.len() {
                assert(init[i] == rows[i]);
            } else {
                assert(all[all.len() - 1] == v);
            }
        }
    }
}

/// A trigger is one of a team exactly where a row of that team names it.
pub proof fn triggers_of_a_team_are_its_own(
    rows: Seq<TriggerRow>,
    team_id: i32,
    v: (i32, Seq<char>),
)
    ensures
        team_triggers(rows, team_id).contains(v) <==> exists|i: int|
            0 <= i < rows.len() && (#[trigger] rows[i]).team_id == team_id && (rows[i].puzzle_id, rows[i].trigger_key@) == v,
    decreases rows.len(),
{
    if rows.len() > 0 {
        let init = rows.drop_last();
        let last = rows[rows.len() - 1];
        let (rest, all) = (team_triggers(init, team_id), team_triggers(rows, team_id));
        triggers_of_a_team_are_its_own(init, team_id, v);
        if rest.contains(v) {
            let k = choose|k: int| 0 <= k < rest.len() && rest[k] == v;
            assert(all[k] == v);
            let i = choose|i: int| 0 <= i < init.len() && (#[trigger] init[i]).team_id == team_id && (init[i].puzzle_id, init[i].trigger_key@) == v;
            assert(rows[i] == init[i]);
        }
        if all.contains(v) {
            let k = choose|k: int| 0 <= k < all.len() && all[k] == v;
            if k < rest.len() {
                assert(rest[k] == v);
            } else {
                assert(rows[rows.len() - 1] == last);
            }
        }
        if exists|i: int| 0 <= i < rows.len() && (#[trigger] rows[i]).team_id == team_id && (rows[i].puzzle_id, rows[i].trigger_key@) == v {
            let i = choose|i: int| 0 <= i < rows.len() && (#[trigger] rows[i]).team_id == team_id && (rows[i].puzzle_id, rows[i].trigger_key@) == v;
            if i < init.len() {
                assert(init[i] == rows[i]);
            } else {
                assert(all[all.len() - 1] == v);
            }
        }
    }
}

/// A hint is enabled exactly where its condition compiles and is open to the team.
pub proof fn enabled_hints_have_open_conditions(
    pending: Seq<(i32, String)>,
    m: Progress,
    v: i32,
)
    ensures
        enabled_in(pending, m).contains(v) <==> exists|i: int|
            0 <= i < pending.len() && expr::gate_in((#[trigger] pending[i]).1@) is Ok && ast::holds(m, expr::gate_in(pending[i].1@)->Ok_0) && pending[i].0 == v,
    decreases pending.len(),
{
    if pending.len() > 0 {
        let init = pending.drop_last();
        let last = pending[pending.len() - 1];
        let (rest, all) = (enabled_in(init, m), enabled_in(pending, m));
        enabled_hints_have_open_conditions(init, m, v);
        if rest.contains(v) {
            let k = choose|k: int| 0 <= k < rest.len() && rest[k] == v;
            assert(all[k] == v);
            let i = choose|i: int| 0 <= i < init.len() && expr::gate_in((#[trigger] init[i]).1@) is Ok && ast::holds(m, expr::gate_in(init[i].1@)->Ok_0) && init[i].0 == v;
            assert(pending[i] == init[i]);
        }
        if all.contains(v) {
            let k = choose|k: int| 0 <= k < all.len() && all[k] == v;
            if k < rest.len() {
                assert(rest[k] == v);
            } else {
                assert(pending[pending.len() - 1] == last);
            }
        }
        if exists|i: int| 0 <= i < pending.len() && expr::gate_in((#[trigger] pending[i]).1@) is Ok && ast::holds(m, expr::gate_in(pending[i].1@)->Ok_0) && pending[i].0 == v {
            let i = choose|i: int| 0 <= i < pending.len() && expr::gate_in((#[trigger] pending[i]).1@) is Ok && ast::holds(m, expr::gate_in(pending[i].1@)->Ok_0) && pending[i].0 == v;
            if i < init.len() {
                assert(init[i] == pending[i]);
            } else {
                assert(all[all.len() - 1] == v);
            }
        }
    }
}

/// A team is eligible exactly where there is no condition, or the condition is open to it with what it has
/// solved and with its own triggers.
pub proof fn eligible_teams_meet_the_condition(
    teams: Seq<Candidate>,
    gate: Option<Gate>,
    rounds: Seq<RoundRow>,
    puzzles: Seq<PuzzleRow>,
    triggers: Seq<TriggerRow>,
    v: i32,
)
    ensures
        eligible_teams(teams, gate, rounds, puzzles, triggers).contains(v) <==> exists|i: int|
            0 <= i < teams.len() && (gate is None || ast::holds(candidate_progress(#[trigger] teams[i], rounds, puzzles, triggers), gate->0)) && teams[i].id == v,
    decreases teams.len(),
{
    if teams.len() > 0 {
        let init = teams.drop_last();
        let last = teams[teams.len() - 1];
        let (rest, all) = (eligible_teams(init, gate, rounds, puzzles, triggers), eligible_teams(teams, gate, rounds, puzzles, triggers));
        eligible_teams_meet_the_condition(init, gate, rounds, puzzles, triggers, v);
        if rest.contains(v) {
            let k = choose|k: int| 0 <= k < rest.len() && rest[k] == v;
            assert(all[k] == v);
            let i = choose|i: int| 0 <= i < init.len() && (gate is None || ast::holds(candidate_progress(#[trigger] init[i], rounds, puzzles, triggers), gate->0)) && init[i].id == v;
            assert(teams[i] == init[i]);
        }
        if all.contains(v) {
            let k = choose|k: int| 0 <= k < all.len() && all[k] == v;
            if k < rest.len() {
                assert(rest[k] == v);
            } else {
                assert(teams[teams.len() - 1] == last);
            }
        }
        if exists|i: int| 0 <= i < teams.len() && (gate is None || ast::holds(candidate_progress(#[trigger] teams[i], rounds, puzzles, triggers), gate->0)) && teams[i].id == v {
            let i = choose|i: int| 0 <= i < teams.len() && (gate is None || ast::holds(candidate_progress(#[trigger] teams[i], rounds, puzzles, triggers), gate->0)) && teams[i].id == v;
            if i < init.len() {
                assert(init[i] == teams[i]);
            } else {
                assert(all[all.len() - 1] == v);
            }
        }
    }
}

/// A team that is a candidate for a puzzle has the triggers of its own rows, has started where it is
/// locked, and has solved what its rows name.
pub proof fn candidates_are_taken_as_they_stand(
    c: Candidate,
    rounds: Seq<RoundRow>,
    puzzles: Seq<PuzzleRow>,
    triggers: Seq<TriggerRow>,
    id: i32,
    key: Seq<char>,
)
    requires
        id >= 0,
    ensures
        ({
            let m = candidate_progress(c, rounds, puzzles, triggers);
            &&& m.solved.contains(id as u32) <==> c.solved.contains(id)
            &&& m.game_started == c.is_locked
            &&& m.triggered.contains((id as u32, key)) <==> exists|i: int|
                0 <= i < triggers.len() && (#[trigger] triggers[i]).team_id == c.id
                    && triggers[i].puzzle_id == id && triggers[i].trigger_key@ == key
            &&& m.puzzle_slugs == states::puzzle_slugs_of(puzzles, unlock_reading())
            &&& m.round_slugs == states::round_slugs_of(rounds, unlock_reading())
            &&& m.round_puzzles == states::round_puzzles_of(puzzles, unlock_reading())
        }),
{
    triggers_of_a_team_are_its_own(triggers, c.id, (id, key));
    let own = team_triggers(triggers, c.id);
    let m = candidate_progress(c, rounds, puzzles, triggers);
    if m.triggered.contains((id as u32, key)) {
        let i = choose|i: int|
            0 <= i < own.len() && #[trigger] own[i] == (states::stored_id(id as u32), key);
        assert(own.contains((id, key)));
        let k = choose|k: int|
            0 <= k < triggers.len() && (#[trigger] triggers[k]).team_id == c.id && (
            triggers[k].puzzle_id, triggers[k].trigger_key@) == (id, key);
        assert(triggers[k].puzzle_id == id);
    }
    if exists|i: int|
        0 <= i < triggers.len() && (#[trigger] triggers[i]).team_id == c.id && triggers[i].puzzle_id
            == id && triggers[i].trigger_key@ == key {
        let i = choose|i: int|
            0 <= i < triggers.len() && (#[trigger] triggers[i]).team_id == c.id
                && triggers[i].puzzle_id == id && triggers[i].trigger_key@ == key;
        assert((triggers[i].puzzle_id, triggers[i].trigger_key@) == (id, key));
        let k = choose|k: int| 0 <= k < own.len() && own[k] == (id, key);
        assert(own[k] == (states::stored_id(id as u32), key));
    }
}

/// Rows of one team that stand side by side are taken for one team that has solved all that they
/// name; a row of another team starts a team of its own.
pub proof fn rows_of_a_team_are_taken_together(rows: Seq<CandidateRow>, a: CandidateRow, b: CandidateRow)
    ensures
        candidates_of(Seq::empty()).len() == 0,
        ({
            let before = candidates_of(rows.push(a));
            let after = candidates_of(rows.push(a).push(b));
            &&& before.len() > 0
            &&& before.last().id == a.id
            &&& a.solved_puzzle_id matches Some(id) ==> before.last().solved.contains(id)
            &&& a.id != b.id ==> after.drop_last() == before && after.last().id == b.id
                && after.last().is_locked == b.is_locked && after.last().solved == (
            match b.solved_puzzle_id {
                Some(id) => seq![id],
                None => Seq::<i32>::empty(),
            })
            &&& a.id == b.id ==> after.len() == before.len() && after.drop_last()
                == before.drop_last() && after.last().id == a.id && after.last().is_locked
                == before.last().is_locked && after.last().solved == (match b.solved_puzzle_id {
                Some(id) => before.last().solved.push(id),
                None => before.last().solved,
            })
        }),
{
    let one = rows.push(a);
    let two = one.push(b);
    assert(one.drop_last() =~= rows);
    assert(two.drop_last() =~= one);
    let (rest, before, after) = (candidates_of(rows), candidates_of(one), candidates_of(two));
    if let Some(id) = a.solved_puzzle_id {
        let solved = before.last().solved;
        assert(solved[solved.len() - 1] == id);
    }
    assert(a.id != b.id ==> after.drop_last() =~= before);
    assert(a.id == b.id ==> after.drop_last() =~= before.drop_last());
    if a.id != b.id {
        if let Some(id) = b.solved_puzzle_id {
            assert(Seq::<i32>::empty().push(id) =~= seq![id]);
        }
    }
}

/// A puzzle without a condition never opens by itself, nor does one whose condition does not
/// compile, nor one that is solved; any other opens exactly where its condition is open.
pub proof fn conditions_open_puzzles(row: PuzzleRow, m: Progress)
    requires
        row.id >= 0,
    ensures
        row.unlock_cond is None ==> !opens(row, m),
        m.solved.contains(row.id as u32) ==> !opens(row, m),
        row.unlock_cond matches Some(text) ==> match expr::gate_in(text@) {
            Err(_) => !opens(row, m),
            Ok(g) => !m.solved.contains(row.id as u32) ==> opens(row, m) == ast::holds(m, g),
        },
{
}

/// A puzzle that waits for two others opens to a team whose rows name both and not the puzzle
/// itself, and opens to no team that lacks one of them.
pub proof fn puzzles_wait_for_all_that_they_ask(
    team: Seq<TeamSolvedRow>,
    triggers: Seq<(i32, String)>,
    rounds: Seq<RoundRow>,
    puzzles: Seq<PuzzleRow>,
    k: int,
    a: i32,
    b: i32,
)
    requires
        team.len() > 0,
        0 <= k < puzzles.len(),
        puzzles[k].id >= 0,
        a >= 0,
        b >= 0,
        puzzles[k].unlock_cond matches Some(text) && expr::gate_in(text@) == Ok::<Gate, expr::Fault>(
            Gate::And(seq![Gate::Solved(Name::Id(a as u32)), Gate::Solved(Name::Id(b as u32))]),
        ),
        forall|i: int| 0 <= i < team.len() ==> (#[trigger] team[i]).puzzle_id != Some(puzzles[k].id),
    ensures
        opens(
            puzzles[k],
            states::rows_progress(
                solved_in(team),
                rounds,
                puzzles,
                unlock_reading(),
                triggers,
                team[0].is_locked,
            ),
        ) <==> (exists|i: int| 0 <= i < team.len() && (#[trigger] team[i]).puzzle_id == Some(a)) && (
        exists|i: int| 0 <= i < team.len() && (#[trigger] team[i]).puzzle_id == Some(b)),
{
    let m = states::rows_progress(
        solved_in(team),
        rounds,
        puzzles,
        unlock_reading(),
        triggers,
        team[0].is_locked,
    );
    let xs = seq![Gate::Solved(Name::Id(a as u32)), Gate::Solved(Name::Id(b as u32))];
    solved_puzzles_are_those_of_the_rows(team, a);
    solved_puzzles_are_those_of_the_rows(team, b);
    solved_puzzles_are_those_of_the_rows(team, puzzles[k].id);
    let first = seq![Gate::Solved(Name::Id(a as u32))];
    ast::gates_are_joined(m, first, Gate::Solved(Name::Id(b as u32)));
    ast::gates_are_joined(m, Seq::empty(), Gate::Solved(Name::Id(a as u32)));
    assert(Seq::<Gate>::empty().push(Gate::Solved(Name::Id(a as u32))) =~= first);
    assert(first.push(Gate::Solved(Name::Id(b as u32))) =~= xs);
}

/// The puzzle that opens a round counts among its puzzles neither when puzzles are unlocked nor when
/// hints are enabled; rows with negative ids count as 0 for the former and not at all for the latter.
pub proof fn openers_are_not_counted(rows: Seq<PuzzleRow>, row: PuzzleRow, round: u32)
    requires
        row.id >= 0,
        row.round_id >= 0,
        row.round_puzzle_id == Some(row.id),
    ensures
        types::lookup(states::round_puzzles_of(rows.push(row), unlock_reading()), round)
            == types::lookup(states::round_puzzles_of(rows, unlock_reading()), round),
        types::lookup(states::round_puzzles_of(rows.push(row), hint_reading()), round)
            == types::lookup(states::round_puzzles_of(rows, hint_reading()), round),
        unlock_reading().negative_is_zero && !hint_reading().negative_is_zero,
{
    states::puzzles_belong_to_their_rounds(rows, row, unlock_reading(), round);
    states::puzzles_belong_to_their_rounds(rows, row, hint_reading(), round);
}

/// A team has a puzzle in whatever state exactly where a row of it names the puzzle, and has solved
/// it exactly where such a row has a state of at least 1.
pub proof fn puzzles_of_a_team_are_those_of_its_rows(
    stored: Seq<StoredPuzzle>,
    row: StoredPuzzle,
    id: i32,
)
    ensures
        !has_puzzle(Seq::empty(), id),
        solved_among(Seq::empty()).len() == 0,
        has_puzzle(stored.push(row), id) <==> has_puzzle(stored, id) || row.puzzle_id == id,
        row.state >= 1 ==> solved_among(stored.push(row)) == solved_among(stored).push(
            row.puzzle_id,
        ),
        row.state < 1 ==> solved_among(stored.push(row)) == solved_among(stored),
{
    let all = stored.push(row);
    assert(all.drop_last() =~= stored);
    if has_puzzle(stored, id) {
        let k = choose|k: int| 0 <= k < stored.len() && (#[trigger] stored[k]).puzzle_id == id;
        assert(all[k].puzzle_id == id);
    }
    if has_puzzle(all, id) {
        let k = choose|k: int| 0 <= k < all.len() && (#[trigger] all[k]).puzzle_id == id;
        if k < stored.len() {
            assert(stored[k].puzzle_id == id);
        }
    }
    if row.puzzle_id == id {
        assert(all[stored.len() as int].puzzle_id == id);
    }
}

/// Puzzles that open to a team stand behind those that it has, open and not solved, and those that
/// it has stay as they are.
pub proof fn opened_puzzles_are_open(stored: Seq<StoredPuzzle>, opened: Seq<i32>, i: int)
    requires
        0 <= i < stored.len() + opened.len(),
    ensures
        with_open(stored, opened).len() == stored.len() + opened.len(),
        i < stored.len() ==> with_open(stored, opened)[i] == stored[i],
        i >= stored.len() ==> with_open(stored, opened)[i].puzzle_id == opened[i - stored.len()]
            && with_open(stored, opened)[i].state == 0,
{
}

/// Puzzles whose condition cannot be read are told with their number and the words for the fault, one
/// for one.
pub proof fn faults_are_told_one_for_one(v: Seq<(i32, Arc<str>)>, i: int)
    requires
        0 <= i < v.len(),
    ensures
        rejects_view(v).len() == v.len(),
        rejects_view(v)[i].0 == v[i].0,
        rejects_view(v)[i].1 == (*v[i].1)@,
{
}

} // verus!
