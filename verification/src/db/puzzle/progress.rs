//! How far a team has come, with a puzzle and with the game.
use vstd::prelude::*;

use crate::clock::Timestamp;
use crate::db::puzzle::submit;
use crate::db::puzzle::submit::SubmitEffect;
use crate::model::game::RbJudgeAction;

verus! {

/// How a puzzle stands to a team, as it is stored: it is closed below 0, open at 0 and solved at 1.
#[derive(Debug, Clone, Copy, PartialEq, Eq, Structural)]
pub struct PuzzleProgress {
    pub state: i16,
    pub solve_at: Option<Timestamp>,
}

/// How a team stands to the game, as it is stored: it is locked once it has started.
#[derive(Debug, Clone, Copy, PartialEq, Eq, Structural)]
pub struct TeamProgress {
    pub is_locked: bool,
    pub finish_at: Option<Timestamp>,
}

impl PuzzleProgress {
    /// The puzzle after a right answer: one that is open is solved.
    pub open spec fn solved(self, now: Timestamp) -> PuzzleProgress {
        if self.state == 0 {
            PuzzleProgress { state: 1, solve_at: Some(now) }
        } else {
            self
        }
    }
}

impl TeamProgress {
    /// The team after an answer that starts the game.
    pub open spec fn started(self) -> TeamProgress {
        TeamProgress { is_locked: true, ..self }
    }

    /// The team after an answer that finishes the game: only a team that has started finishes, and
    /// it does so once.
    pub open spec fn finished(self, now: Timestamp) -> TeamProgress {
        if self.is_locked && self.finish_at is None {
            TeamProgress { finish_at: Some(now), ..self }
        } else {
            self
        }
    }
}

/// The puzzle after a right answer, and whether it was solved only now.
pub fn mark_solved(puzzle: PuzzleProgress, now: Timestamp) -> (r: (PuzzleProgress, bool))
    ensures
        r.0 == puzzle.solved(now),
        r.1 == (puzzle.state == 0),
{
    if puzzle.state == 0 {
        (PuzzleProgress { state: 1, solve_at: Some(now) }, true)
    } else {
        (puzzle, false)
    }
}

/// The team after an answer that starts the game, and whether it started only now.
pub fn lock_team(team: TeamProgress) -> (r: (TeamProgress, bool))
    ensures
        r.0 == team.started(),
        r.1 == !team.is_locked,
{
    (TeamProgress { is_locked: true, finish_at: team.finish_at }, !team.is_locked)
}

/// The team after an answer that finishes the game.
pub fn finish_team(team: TeamProgress, now: Timestamp) -> (r: TeamProgress)
    ensures
        r == team.finished(now),
{
    if team.is_locked && team.finish_at.is_none() {
        TeamProgress { is_locked: true, finish_at: Some(now) }
    } else {
        team
    }
}

/// How far a team has come.
pub struct Standing {
    pub puzzle: PuzzleProgress,
    pub team: TeamProgress,
}

impl Standing {
    /// How far the team has come after something was done about an answer.
    pub open spec fn after(self, effect: SubmitEffect, now: Timestamp) -> Standing {
        match effect {
            SubmitEffect::MarkSolved => Standing { puzzle: self.puzzle.solved(now), ..self },
            SubmitEffect::LockTeam => Standing { team: self.team.started(), ..self },
            SubmitEffect::FinishTeam => Standing { team: self.team.finished(now), ..self },
            _ => self,
        }
    }

    /// How far the team has come after one thing after another was done about an answer.
    pub open spec fn after_all(self, effects: Seq<SubmitEffect>, now: Timestamp) -> Standing
        decreases effects.len(),
    {
        if effects.len() == 0 {
            self
        } else {
            self.after_all(effects.drop_last(), now).after(effects.last(), now)
        }
    }

    /// Whether a team that has come this far has come at least as far as another standing says: what
    /// was solved, started or finished is so, and since the same time.
    pub open spec fn keeps(self, earlier: Standing) -> bool {
        &&& earlier.puzzle.state <= self.puzzle.state
        &&& earlier.puzzle.state >= 1 ==> self.puzzle == earlier.puzzle
        &&& earlier.team.is_locked ==> self.team.is_locked
        &&& earlier.team.finish_at is Some ==> self.team.finish_at == earlier.team.finish_at
    }
}

/// Nothing that is done about an answer takes away what a team has reached.
pub proof fn progress_is_never_lost(standing: Standing, effects: Seq<SubmitEffect>, now: Timestamp)
    ensures
        standing.after_all(effects, now).keeps(standing),
    decreases effects.len(),
{
    if effects.len() > 0 {
        progress_is_never_lost(standing, effects.drop_last(), now);
    }
}

/// What is done about an answer at the outset makes of a team what the verdict says: a right answer
/// solves a puzzle that is open, one that finishes the game lets the team finish, one that starts it
/// locks the team, and any other leaves all as it was.
pub proof fn verdicts_make_progress(standing: Standing, action: RbJudgeAction, now: Timestamp)
    ensures
        standing.after_all(submit::opening_of(action), now) == (Standing {
            puzzle: if submit::solves(action) {
                standing.puzzle.solved(now)
            } else {
                standing.puzzle
            },
            team: if action is FinishGame {
                standing.team.finished(now)
            } else if action is StartGame {
                standing.team.started()
            } else {
                standing.team
            },
        }),
{
    reveal_with_fuel(Standing::after_all, 3);
    let opening = submit::opening_of(action);
    if opening.len() == 2 {
        assert(opening.drop_last() =~= seq![opening[0]]);
        assert(opening.drop_last().drop_last() =~= Seq::empty());
    } else if opening.len() == 1 {
        assert(opening.drop_last() =~= Seq::empty());
    }
}

/// A second answer does not solve a puzzle again, nor start or finish a game again.
pub proof fn progress_is_made_once(standing: Standing, first: Timestamp, second: Timestamp)
    ensures
        standing.puzzle.solved(first).solved(second) == standing.puzzle.solved(first),
        standing.team.started().started() == standing.team.started(),
        standing.team.finished(first).finished(second) == standing.team.finished(first),
        !standing.team.is_locked ==> standing.team.finished(first) == standing.team,
{
}

/// A wrong answer leaves a team where it was, whatever the rules on wrong answers say.
pub proof fn wrong_answers_make_no_progress(
    standing: Standing,
    rules: Seq<submit::PenaltyRule>,
    now: Timestamp,
)
    ensures
        standing.after_all(submit::opening_of(RbJudgeAction::Fail), now) == standing,
        standing.after_all(submit::charges_of(rules), now) == standing,
    decreases rules.len(),
{
    verdicts_make_progress(standing, RbJudgeAction::Fail, now);
    if rules.len() > 0 {
        wrong_answers_make_no_progress(standing, rules.drop_last(), now);
        let charges = submit::charges_of(rules);
        let before = submit::charges_of(rules.drop_last());
        if submit::charges_currency(rules.last()) {
            assert(charges.drop_last() =~= before);
        }
    }
}

/// A puzzle that is open and not solved is solved now; a locked puzzle stays locked. A team is locked
/// when it starts, and finishes now where it has started and has not finished.
pub proof fn progress_is_marked(puzzle: PuzzleProgress, team: TeamProgress, now: Timestamp)
    ensures
        puzzle.state == 0 ==> puzzle.solved(now).state == 1 && puzzle.solved(now).solve_at == Some(
            now,
        ),
        puzzle.state != 0 ==> puzzle.solved(now).state == puzzle.state && puzzle.solved(now).solve_at
            == puzzle.solve_at,
        team.started().is_locked,
        team.started().finish_at == team.finish_at,
        team.finished(now).is_locked == team.is_locked,
        team.is_locked && team.finish_at is None ==> team.finished(now).finish_at == Some(now),
        !team.is_locked || team.finish_at is Some ==> team.finished(now).finish_at == team.finish_at,
{
}

/// Only three effects change how a team stands, each its own part.
pub proof fn effects_change_their_part(standing: Standing, effect: SubmitEffect, now: Timestamp)
    ensures
        effect != SubmitEffect::MarkSolved ==> standing.after(effect, now).puzzle == standing.puzzle,
        effect == SubmitEffect::MarkSolved ==> standing.after(effect, now).team == standing.team
            && standing.after(effect, now).puzzle.state == (if standing.puzzle.state == 0 {
            1
        } else {
            standing.puzzle.state
        }),
        effect != SubmitEffect::LockTeam ==> standing.after(effect, now).team.is_locked
            == standing.team.is_locked,
        effect == SubmitEffect::LockTeam ==> standing.after(effect, now).team.is_locked,
        effect != SubmitEffect::FinishTeam ==> standing.after(effect, now).team.finish_at
            == standing.team.finish_at,
        effect == SubmitEffect::FinishTeam && standing.team.is_locked ==> standing.after(
            effect,
            now,
        ).team.finish_at is Some,
{
}

} // verus!
