//! Answers that a puzzle's backend gives in a team's name.
use vstd::prelude::*;

use crate::json;
use crate::clock::Timestamp;
use crate::db::event_log::{id_value, puzzle_value, EventLogInput, EventRefs};
use crate::db::event_log;
use crate::db::puzzle::view::PuzzleJudgeInfo;
use crate::error::{fault, RbInternalError};
use crate::game::judge;
use crate::game::judge::normalize_answer;
use crate::json::{Fields, Json, J};
use crate::model::game::RbJudgeAction;

verus! {

/// An answer that a backend gives.
#[derive(Debug)]
pub struct BackendSubmissionInput {
    pub user_answer: String,
    pub norm_answer: Option<String>,
    pub action: RbJudgeAction,
    pub result: Option<String>,
    pub real_answer: Option<String>,
    pub ignored: bool,
}

/// An answer, as it is shown to a backend.
#[derive(Debug)]
pub struct BackendSubmissionShowData {
    pub id: i32,
    pub team_id: i32,
    pub user_id: i32,
    pub puzzle_id: i32,
    pub user_answer: String,
    pub norm_answer: String,
    pub saction: RbJudgeAction,
    pub sresult: Option<String>,
    pub real_answer: Option<String>,
    pub ignored: bool,
    pub ctime_at: Timestamp,
}

/// The normalized answer that is stored: the one that the backend gives, or else that of the
/// answer itself.
pub fn insert_backend_submission(data: &BackendSubmissionInput) -> (r: String)
    ensures
        r@ == (match data.norm_answer {
            Some(given) => given@,
            None => judge::normalized(data.user_answer@),
        }),
{
    match &data.norm_answer {
        Some(given) => given.clone(),
        None => normalize_answer(data.user_answer.as_str()),
    }
}

/// An answer, as the event of a backend shows it.
pub open spec fn backend_submission_json(row: BackendSubmissionShowData) -> J {
    json::object_of(
        seq![
            ("id"@, json::int_json(row.id as int)),
            ("answer"@, J::Text(row.user_answer@)),
            ("norm_answer"@, J::Text(row.norm_answer@)),
            ("action"@, json::int_json(row.saction.code_of() as int)),
            ("result"@, json::opt_text_json(judge::text_in(row.sresult))),
            ("ignored"@, J::Bool(row.ignored)),
        ],
    )
}

/// The event of an answer that a backend has given.
pub fn add_backend_submission(
    row: &BackendSubmissionShowData,
    puzzle: &PuzzleJudgeInfo,
    team_id: i32,
    user_id: i32,
    puzzle_id: i32,
) -> (r: EventLogInput)
    ensures
        r.is_team_event(
            "submission.backend_added"@,
            (EventRefs {
                game_id: Some(puzzle.game_id),
                team_id: Some(team_id),
                user_id: Some(user_id),
                puzzle_id: Some(puzzle_id),
                submission_id: Some(row.id),
                ..event_log::no_refs()
            }),
            json::object_of(
                seq![
                    ("submission"@, backend_submission_json(*row)),
                    ("puzzle"@, event_log::puzzle_json(puzzle.id as int, puzzle.title@)),
                    ("source"@, J::Text("backend"@)),
                ],
            ),
        ),
{
    let action: i16 = row.saction.into();
    let result = match &row.sresult {
        Some(text) => Json::text(text.as_str()),
        None => Json::Null,
    };
    assert(result@ == json::opt_text_json(judge::text_in(row.sresult)));
    let submission = Fields::new().put("id", Json::integer(row.id as i64)).put(
        "answer",
        Json::text(row.user_answer.as_str()),
    ).put("norm_answer", Json::text(row.norm_answer.as_str())).put(
        "action",
        Json::integer(action as i64),
    ).put("result", result).put("ignored", Json::Bool(row.ignored));
    assert(submission.pairs() =~= seq![
        ("id"@, json::int_json(row.id as int)),
        ("answer"@, J::Text(row.user_answer@)),
        ("norm_answer"@, J::Text(row.norm_answer@)),
        ("action"@, json::int_json(row.saction.code_of() as int)),
        ("result"@, json::opt_text_json(judge::text_in(row.sresult))),
        ("ignored"@, J::Bool(row.ignored)),
    ]);
    let fields = Fields::new().put("submission", submission.object()).put(
        "puzzle",
        puzzle_value(puzzle.id, puzzle.title.as_str()),
    ).put("source", Json::text("backend"));
    assert(fields.pairs() =~= seq![
        ("submission"@, backend_submission_json(*row)),
        ("puzzle"@, event_log::puzzle_json(puzzle.id as int, puzzle.title@)),
        ("source"@, J::Text("backend"@)),
    ]);
    let mut event = EventLogInput::team_activity("submission.backend_added", fields.object());
    event.game_id = Some(puzzle.game_id);
    event.team_id = Some(team_id);
    event.user_id = Some(user_id);
    event.puzzle_id = Some(puzzle_id);
    event.submission_id = Some(row.id);
    event
}

/// Something that is done when a backend solves a puzzle.
#[derive(Debug, Clone, Copy, PartialEq, Eq, Structural)]
pub enum BackendSolveEffect {
    FinishTeam,
    MarkDirty,
    CloseTickets,
    Commit,
    UpdateLeaderboard,
    LogSolved,
    InvalidateTeam,
    UnlockPuzzles,
}

/// What is done when a backend solves a puzzle: a team finishes where the answer says so, and all
/// else is done only where the puzzle was not solved before.
pub open spec fn backend_solve_effects(solved: bool, action: RbJudgeAction) -> Seq<
    BackendSolveEffect,
> {
    let finish = if action is FinishGame {
        seq![BackendSolveEffect::FinishTeam]
    } else {
        Seq::empty()
    };
    let within = if solved {
        seq![BackendSolveEffect::MarkDirty, BackendSolveEffect::CloseTickets]
    } else {
        Seq::empty()
    };
    let told = if solved {
        seq![BackendSolveEffect::UpdateLeaderboard, BackendSolveEffect::LogSolved]
    } else {
        Seq::empty()
    };
    let forgotten = if solved && action is FinishGame {
        seq![BackendSolveEffect::InvalidateTeam]
    } else {
        Seq::empty()
    };
    let opened = if solved {
        seq![BackendSolveEffect::UnlockPuzzles]
    } else {
        Seq::empty()
    };
    finish + within + seq![BackendSolveEffect::Commit] + told + forgotten + opened
}

/// What is done when a backend solves a puzzle, once it is known whether that was new.
pub fn solve_backend_puzzle(solved: bool, action: RbJudgeAction) -> (r: Vec<BackendSolveEffect>)
    ensures
        r@ == backend_solve_effects(solved, action),
{
    let finish = matches!(action, RbJudgeAction::FinishGame);
    let mut effects: Vec<BackendSolveEffect> = Vec::new();
    if finish {
        effects.push(BackendSolveEffect::FinishTeam);
    }
    if solved {
        effects.push(BackendSolveEffect::MarkDirty);
        effects.push(BackendSolveEffect::CloseTickets);
    }
    effects.push(BackendSolveEffect::Commit);
    if solved {
        effects.push(BackendSolveEffect::UpdateLeaderboard);
        effects.push(BackendSolveEffect::LogSolved);
        if finish {
            effects.push(BackendSolveEffect::InvalidateTeam);
        }
        effects.push(BackendSolveEffect::UnlockPuzzles);
    }
    assert(effects@ =~= backend_solve_effects(solved, action));
    effects
}

/// The event of a puzzle that a backend has solved.
pub fn backend_solved(
    puzzle: &PuzzleJudgeInfo,
    team_id: i32,
    user_id: i32,
    puzzle_id: i32,
    submission_id: i32,
) -> (r: EventLogInput)
    ensures
        r.is_team_event(
            "puzzle.backend_solved"@,
            (EventRefs {
                game_id: Some(puzzle.game_id),
                team_id: Some(team_id),
                user_id: Some(user_id),
                puzzle_id: Some(puzzle_id),
                submission_id: Some(submission_id),
                ..event_log::no_refs()
            }),
            json::object_of(
                seq![
                    ("puzzle"@, event_log::puzzle_json(puzzle.id as int, puzzle.title@)),
                    ("submission"@, event_log::id_json(submission_id as int)),
                    ("source"@, J::Text("backend"@)),
                ],
            ),
        ),
{
    let fields = Fields::new().put("puzzle", puzzle_value(puzzle.id, puzzle.title.as_str())).put(
        "submission",
        id_value(submission_id),
    ).put("source", Json::text("backend"));
    assert(fields.pairs() =~= seq![
        ("puzzle"@, event_log::puzzle_json(puzzle.id as int, puzzle.title@)),
        ("submission"@, event_log::id_json(submission_id as int)),
        ("source"@, J::Text("backend"@)),
    ]);
    let mut event = EventLogInput::team_activity("puzzle.backend_solved", fields.object());
    event.game_id = Some(puzzle.game_id);
    event.team_id = Some(team_id);
    event.user_id = Some(user_id);
    event.puzzle_id = Some(puzzle_id);
    event.submission_id = Some(submission_id);
    event
}

/// Whether an answer is one of the team, user and puzzle that a backend runs for.
pub open spec fn belongs(
    submission: BackendSubmissionShowData,
    team_id: i32,
    user_id: i32,
    puzzle_id: i32,
) -> bool {
    submission.team_id == team_id && submission.user_id == user_id && submission.puzzle_id
        == puzzle_id
}

/// The answer with which a backend may solve a puzzle: one of its own team, user and puzzle.
pub fn solve_backend_puzzle_with_submission(
    team_id: i32,
    user_id: i32,
    puzzle_id: i32,
    submission: &BackendSubmissionShowData,
) -> (r: Result<i32, RbInternalError>)
    ensures
        match r {
            Ok(id) => belongs(*submission, team_id, user_id, puzzle_id) && id == submission.id,
            Err(e) => !belongs(*submission, team_id, user_id, puzzle_id) && e.text()
                == "submission does not match current runtime"@,
        },
{
    if submission.team_id != team_id || submission.user_id != user_id || submission.puzzle_id
        != puzzle_id {
        return Err(fault("submission does not match current runtime"));
    }
    Ok(submission.id)
}

/// What a success that a puzzle's own program reports brings about: the team finishes exactly where
/// the verdict finishes the game, and everything else follows only where the puzzle was solved only
/// now. What is stored is stored before the leaderboard is told and puzzles open.
pub proof fn reported_successes_count_once(solved: bool, action: RbJudgeAction)
    ensures
        ({
            let effects = backend_solve_effects(solved, action);
            let finishes = action == RbJudgeAction::FinishGame;
            &&& effects.contains(BackendSolveEffect::FinishTeam) <==> finishes
            &&& effects.contains(BackendSolveEffect::Commit)
            &&& effects.contains(BackendSolveEffect::MarkDirty) <==> solved
            &&& effects.contains(BackendSolveEffect::CloseTickets) <==> solved
            &&& effects.contains(BackendSolveEffect::UpdateLeaderboard) <==> solved
            &&& effects.contains(BackendSolveEffect::LogSolved) <==> solved
            &&& effects.contains(BackendSolveEffect::UnlockPuzzles) <==> solved
            &&& effects.contains(BackendSolveEffect::InvalidateTeam) <==> solved && finishes
            &&& forall|i: int, j: int|
                0 <= i < effects.len() && 0 <= j < effects.len() && #[trigger] effects[i]
                    == BackendSolveEffect::Commit && (#[trigger] effects[j]
                    == BackendSolveEffect::UpdateLeaderboard || effects[j]
                    == BackendSolveEffect::UnlockPuzzles || effects[j]
                    == BackendSolveEffect::LogSolved) ==> i < j
            &&& forall|i: int, j: int|
                0 <= i < effects.len() && 0 <= j < effects.len() && #[trigger] effects[i]
                    == BackendSolveEffect::Commit && (#[trigger] effects[j]
                    == BackendSolveEffect::FinishTeam || effects[j] == BackendSolveEffect::MarkDirty
                    || effects[j] == BackendSolveEffect::CloseTickets) ==> j < i
        }),
{
    let effects = backend_solve_effects(solved, action);
    let finishes = action == RbJudgeAction::FinishGame;
    let f = if finishes {
        1int
    } else {
        0
    };
    if finishes {
        assert(effects[0] == BackendSolveEffect::FinishTeam);
    }
    if solved {
        assert(effects[f] == BackendSolveEffect::MarkDirty);
        assert(effects[f + 1] == BackendSolveEffect::CloseTickets);
        assert(effects[f + 2] == BackendSolveEffect::Commit);
        assert(effects[f + 3] == BackendSolveEffect::UpdateLeaderboard);
        assert(effects[f + 4] == BackendSolveEffect::LogSolved);
        if finishes {
            assert(effects[6] == BackendSolveEffect::InvalidateTeam);
            assert(effects[7] == BackendSolveEffect::UnlockPuzzles);
        } else {
            assert(effects[5] == BackendSolveEffect::UnlockPuzzles);
        }
    } else {
        assert(effects[f] == BackendSolveEffect::Commit);
    }
}

/// An answer belongs to the team, the user and the puzzle that it was given by and to, and to no
/// others.
pub proof fn answers_belong_to_one_place(
    submission: BackendSubmissionShowData,
    team_id: i32,
    user_id: i32,
    puzzle_id: i32,
)
    ensures
        belongs(submission, submission.team_id, submission.user_id, submission.puzzle_id),
        belongs(submission, team_id, user_id, puzzle_id) ==> team_id == submission.team_id && user_id
            == submission.user_id && puzzle_id == submission.puzzle_id,
{
}

/// An answer is shown to a program as it was given and as it was compared, with what was decided.
pub proof fn answers_are_shown_to_programs(row: BackendSubmissionShowData)
    ensures
        backend_submission_json(row) is Object,
        backend_submission_json(row)->Object_0.dom().contains("id"@),
        backend_submission_json(row)->Object_0["id"@] == json::int_json(row.id as int),
        backend_submission_json(row)->Object_0.dom().contains("answer"@),
        backend_submission_json(row)->Object_0["answer"@] == J::Text(row.user_answer@),
        backend_submission_json(row)->Object_0.dom().contains("norm_answer"@),
        backend_submission_json(row)->Object_0["norm_answer"@] == J::Text(row.norm_answer@),
        backend_submission_json(row)->Object_0.dom().contains("action"@),
        backend_submission_json(row)->Object_0["action"@] == json::int_json(row.saction.code_of() as int),
        backend_submission_json(row)->Object_0.dom().contains("result"@),
        backend_submission_json(row)->Object_0["result"@] == json::opt_text_json(judge::text_in(row.sresult)),
        backend_submission_json(row)->Object_0.dom().contains("ignored"@),
        backend_submission_json(row)->Object_0["ignored"@] == J::Bool(row.ignored),
{
    reveal_strlit("id");
    reveal_strlit("answer");
    reveal_strlit("norm_answer");
    reveal_strlit("action");
    reveal_strlit("result");
    reveal_strlit("ignored");
    assert("id"@.len() == 2 && "answer"@.len() == 6 && "norm_answer"@.len() == 11 && "action"@.len() == 6 && "result"@.len() == 6 && "ignored"@.len() == 7);
    assert("action"@[1] == 'c' && "answer"@[1] == 'n');
    assert("result"@[0] == 'r' && "answer"@[0] == 'a');
    assert("result"@[0] == 'r' && "action"@[0] == 'a');
    let pairs = seq![
        ("id"@, json::int_json(row.id as int)),
        ("answer"@, J::Text(row.user_answer@)),
        ("norm_answer"@, J::Text(row.norm_answer@)),
        ("action"@, json::int_json(row.saction.code_of() as int)),
        ("result"@, json::opt_text_json(judge::text_in(row.sresult))),
        ("ignored"@, J::Bool(row.ignored)),
    ];
    json::keys_hold_their_values(pairs, 0);
    json::keys_hold_their_values(pairs, 1);
    json::keys_hold_their_values(pairs, 2);
    json::keys_hold_their_values(pairs, 3);
    json::keys_hold_their_values(pairs, 4);
    json::keys_hold_their_values(pairs, 5);
}

} // verus!
