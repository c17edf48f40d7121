//! How a team stands to a puzzle, as the staff sees it.
use vstd::prelude::*;

use crate::clock::Timestamp;
use crate::db::puzzle::submit;
use crate::db::puzzle::submit::{PuzzleSubmitRequirement, Refusal};
use crate::db::puzzle::timing::HintRow;
use crate::db::puzzle::view;
use crate::db::puzzle::view::{submission_enabled, submit_requirements_met};
use crate::error::{fault, RbInternalError};
use crate::game::judge::JudgeRule;
use crate::model::game::RbTeamPuzzleState;

verus! {

/// A hint, as the staff see it for a team.
#[derive(Debug)]
pub struct StaffPuzzleHintStatus {
    pub id: i32,
    pub title: String,
    pub cooldown: i32,
    pub cost_id: Option<i32>,
    pub cost_name: Option<String>,
    pub cost_prec: Option<i32>,
    pub cost_amount: i64,
    pub enabled: bool,
    pub available_at: Option<Timestamp>,
    pub unlocked: bool,
    pub unlocked_at: Option<Timestamp>,
}

/// A team's state at a puzzle, as the staff see it.
#[derive(Debug)]
pub struct StaffPuzzleTeamStatus {
    pub server_time: Timestamp,
    pub state: RbTeamPuzzleState,
    pub unlock_at: Timestamp,
    pub solve_at: Option<Timestamp>,
    pub cooldown_till: Option<Timestamp>,
    pub cooldown_active: bool,
    pub submission_enabled: bool,
    pub submit_requirements_met: bool,
    pub can_submit: bool,
    pub team_banned: bool,
    pub max_submit: Option<i32>,
    pub submit_count: i64,
    pub remaining_submit: Option<i64>,
    pub hints: Vec<StaffPuzzleHintStatus>,
}

/// A hint of a puzzle with what it costs, and how it stands to a team.
#[derive(Debug)]
pub struct StaffHintRow {
    pub hint: HintRow,
    pub cost_name: Option<String>,
    pub cost_prec: Option<i32>,
    /// When the team's record of the hint was last written, if it has one.
    pub recorded_at: Option<Timestamp>,
}

impl StaffHintRow {
    /// Whether the hint is open to the team: its condition is met, or the team has bought it.
    pub open spec fn is_enabled(self) -> bool {
        self.hint.enabled() || self.hint.purchased_at is Some
    }

    /// From when on the hint can be bought, where that is known.
    pub open spec fn opens(self) -> Option<int> {
        if !self.is_enabled() {
            None
        } else if self.hint.cooldown_after_enable && self.hint.enabled_at is None {
            match self.recorded_at {
                Some(at) => Some(at + self.hint.wait()),
                None => None,
            }
        } else {
            match self.hint.start() {
                Some(at) => Some(at + self.hint.wait()),
                None => None,
            }
        }
    }

    /// Whether the time from when on the hint can be bought can be told.
    pub open spec fn is_tellable(self) -> bool {
        self.opens() matches Some(at) ==> i64::MIN <= at <= i64::MAX
    }

    /// Whether this is what the staff sees of the hint.
    pub open spec fn is_shown_as(self, shown: StaffPuzzleHintStatus) -> bool {
        &&& shown.id == self.hint.id
        &&& shown.title == self.hint.title
        &&& shown.cooldown == self.hint.cooldown
        &&& shown.cost_id == self.hint.cost_id
        &&& shown.cost_name == self.cost_name
        &&& shown.cost_prec == self.cost_prec
        &&& shown.cost_amount == self.hint.cost_amount
        &&& shown.enabled == self.is_enabled()
        &&& match self.opens() {
            Some(at) => shown.available_at matches Some(told) && told == at,
            None => shown.available_at is None,
        }
        &&& shown.unlocked == self.hint.purchased_at is Some
        &&& shown.unlocked_at == self.hint.purchased_at
    }
}

fn show_hint(row: StaffHintRow) -> (r: Result<StaffPuzzleHintStatus, RbInternalError>)
    ensures
        match r {
            Ok(shown) => row.is_tellable() && row.is_shown_as(shown),
            Err(e) => !row.is_tellable() && e.text() == "timestamp out of range"@,
        },
{
    let hint = row.hint;
    let enabled = !hint.has_condition || hint.enabled_at.is_some() || hint.purchased_at.is_some();
    let since: Option<Timestamp> = if !enabled {
        None
    } else if hint.cooldown_after_enable {
        match hint.enabled_at {
            Some(at) => Some(at),
            None => row.recorded_at,
        }
    } else if hint.opened_at >= hint.release_at {
        Some(hint.opened_at)
    } else {
        Some(hint.release_at)
    };
    let available_at: Option<Timestamp> = match since {
        Some(at) => {
            let till: i128 = at as i128 + hint.cooldown as i128 * 1_000_000;
            if till < i64::MIN as i128 || till > i64::MAX as i128 {
                return Err(fault("timestamp out of range"));
            }
            Some(till as i64)
        },
        None => None,
    };
    Ok(
        StaffPuzzleHintStatus {
            id: hint.id,
            title: hint.title,
            cooldown: hint.cooldown,
            cost_id: hint.cost_id,
            cost_name: row.cost_name,
            cost_prec: row.cost_prec,
            cost_amount: hint.cost_amount,
            enabled,
            available_at,
            unlocked: hint.purchased_at.is_some(),
            unlocked_at: hint.purchased_at,
        },
    )
}

/// Whether all the times from when on hints can be bought can be told.
pub open spec fn all_tellable(rows: Seq<StaffHintRow>) -> bool {
    forall|i: int| 0 <= i < rows.len() ==> (#[trigger] rows[i]).is_tellable()
}

fn show_hints(rows: Vec<StaffHintRow>) -> (r: Result<Vec<StaffPuzzleHintStatus>, RbInternalError>)
    ensures
        match r {
            Ok(shown) => {
                &&& all_tellable(rows@)
                &&& shown@.len() == rows@.len()
                &&& forall|i: int|
                    0 <= i < rows@.len() ==> rows@[i].is_shown_as(#[trigger] shown@[i])
            },
            Err(e) => !all_tellable(rows@) && e.text() == "timestamp out of range"@,
        },
{
    let ghost all = rows@;
    let mut shown: Vec<StaffPuzzleHintStatus> = Vec::new();
    for row in it: rows
        invariant
            it.seq() == all,
            shown@.len() == it.index(),
            forall|i: int| 0 <= i < it.index() ==> (#[trigger] all[i]).is_tellable(),
            forall|i: int|
                0 <= i < shown@.len() ==> all[i].is_shown_as(#[trigger] shown@[i]),
    {
        assert(row == all[it.index()]);
        match show_hint(row) {
            Ok(hint) => {
                shown.push(hint);
            },
            Err(e) => {
                assert(!all[it.index()].is_tellable());
                return Err(e);
            },
        }
    }
    Ok(shown)
}

/// How a team stands to a puzzle, as it is stored.
#[derive(Debug, Clone, Copy, PartialEq, Eq, Structural)]
pub struct StaffStatusRow {
    pub state: i16,
    /// When the puzzle opened to the team.
    pub opened_at: Timestamp,
    pub release_at: Timestamp,
    pub solve_at: Option<Timestamp>,
    pub cooldown_till: Option<Timestamp>,
    /// How many wrong answers the puzzle takes.
    pub max_submit: Option<i32>,
    /// How many more the team may give.
    pub allowance: i32,
    /// How many wrong answers the team has given.
    pub submit_count: i64,
    pub is_banned: bool,
}

impl StaffStatusRow {
    /// How many wrong answers the team may give in all, where they are limited.
    pub open spec fn most(self) -> Option<int> {
        match self.max_submit {
            Some(max) => Some(max + self.allowance),
            None => None,
        }
    }

    /// How many wrong answers are left, where they are limited.
    pub open spec fn remaining(self) -> Option<int> {
        match self.most() {
            Some(most) => Some(
                if most > self.submit_count {
                    most - self.submit_count
                } else {
                    0
                },
            ),
            None => None,
        }
    }

    /// Whether the team must wait.
    pub open spec fn must_wait(self, now: Timestamp) -> bool {
        self.cooldown_till matches Some(till) && till > now
    }

    /// Whether the team could answer now.
    pub open spec fn could_submit(self, enabled: bool, requirements_met: bool, now: Timestamp) -> bool {
        &&& RbTeamPuzzleState::from_code(self.state).is_accessible()
        &&& !self.is_banned
        &&& !self.must_wait(now)
        &&& self.remaining() != Some(0int)
        &&& enabled
        &&& requirements_met
    }

    /// Whether the number of answers that the team may give can be told.
    pub open spec fn is_tellable(self) -> bool {
        self.most() matches Some(most) ==> i32::MIN <= most <= i32::MAX
    }
}

/// Whether a puzzle takes answers: it has rules that can be read.
pub open spec fn takes_answers(rules: Option<Vec<JudgeRule>>) -> bool {
    rules matches Some(rules) && rules@.len() > 0
}

/// Whether a team meets what a puzzle asks for: it can be read, and each balance is high enough.
pub open spec fn meets(
    requirements: Option<Vec<PuzzleSubmitRequirement>>,
    balances: Seq<Option<i64>>,
) -> bool {
    requirements matches Some(asked) && view::all_met(asked@, balances)
}

/// How a team stands to a puzzle, as the staff sees it; `balances` are the team's, one for each
/// requirement.
pub fn get_staff_puzzle_team_status(
    row: Option<StaffStatusRow>,
    rules: &Option<Vec<JudgeRule>>,
    requirements: &Option<Vec<PuzzleSubmitRequirement>>,
    balances: &Vec<Option<i64>>,
    hints: Vec<StaffHintRow>,
    now: Timestamp,
) -> (r: Result<Option<StaffPuzzleTeamStatus>, RbInternalError>)
    requires
        row matches Some(row) ==> row.submit_count >= 0,
        requirements matches Some(asked) ==> asked@.len() == balances@.len(),
    ensures
        match (row, r) {
            (None, r) => r matches Ok(status) && status is None,
            (Some(row), Ok(None)) => false,
            (Some(row), Ok(Some(status))) => {
                &&& row.is_tellable() && all_tellable(hints@)
                &&& status.server_time == now
                &&& status.state == RbTeamPuzzleState::from_code(row.state)
                &&& status.unlock_at == (if row.opened_at >= row.release_at {
                    row.opened_at
                } else {
                    row.release_at
                })
                &&& status.solve_at == row.solve_at
                &&& status.cooldown_till == row.cooldown_till
                &&& status.cooldown_active == row.must_wait(now)
                &&& status.submission_enabled == takes_answers(*rules)
                &&& status.submit_requirements_met == meets(*requirements, balances@)
                &&& status.can_submit == row.could_submit(
                    takes_answers(*rules),
                    meets(*requirements, balances@),
                    now,
                )
                &&& status.team_banned == row.is_banned
                &&& match row.most() {
                    Some(most) => status.max_submit matches Some(max) && max == most,
                    None => status.max_submit is None,
                }
                &&& status.submit_count == row.submit_count
                &&& match row.remaining() {
                    Some(left) => status.remaining_submit matches Some(n) && n == left,
                    None => status.remaining_submit is None,
                }
                &&& status.hints@.len() == hints@.len()
                &&& forall|i: int|
                    0 <= i < hints@.len() ==> hints@[i].is_shown_as(#[trigger] status.hints@[i])
            },
            (Some(row), Err(e)) => if !row.is_tellable() {
                e.text() == "integer out of range"@
            } else {
                !all_tellable(hints@) && e.text() == "timestamp out of range"@
            },
        },
{
    let row = match row {
        Some(row) => row,
        None => {
            return Ok(None);
        },
    };
    let max_submit: Option<i32> = match row.max_submit {
        Some(max) => match max.checked_add(row.allowance) {
            Some(most) => Some(most),
            None => {
                return Err(fault("integer out of range"));
            },
        },
        None => None,
    };
    let remaining_submit: Option<i64> = match max_submit {
        Some(most) => if most as i64 > row.submit_count {
            Some(most as i64 - row.submit_count)
        } else {
            Some(0)
        },
        None => None,
    };
    let used_up = match remaining_submit {
        Some(left) => left == 0,
        None => false,
    };
    let cooldown_active = match row.cooldown_till {
        Some(till) => till > now,
        None => false,
    };
    let enabled = submission_enabled(rules);
    let met = submit_requirements_met(requirements, balances);
    let state: RbTeamPuzzleState = row.state.into();
    let can_submit = state.accessible() && !row.is_banned && !cooldown_active && !used_up && enabled
        && met;
    let hints = match show_hints(hints) {
        Ok(shown) => shown,
        Err(e) => {
            return Err(e);
        },
    };
    Ok(
        Some(
            StaffPuzzleTeamStatus {
                server_time: now,
                state,
                unlock_at: if row.opened_at >= row.release_at {
                    row.opened_at
                } else {
                    row.release_at
                },
                solve_at: row.solve_at,
                cooldown_till: row.cooldown_till,
                cooldown_active,
                submission_enabled: enabled,
                submit_requirements_met: met,
                can_submit,
                team_banned: row.is_banned,
                max_submit,
                submit_count: row.submit_count,
                remaining_submit,
                hints,
            },
        ),
    )
}

/// A team that can answer, as the staff sees it, is admitted with an answer to a released puzzle that
/// it has not given before; a banned or waiting team, or one without answers left, is not.
pub proof fn who_can_submit_is_admitted(
    row: StaffStatusRow,
    c: submit::Circumstances,
    now: Timestamp,
)
    requires
        row.release_at <= now,
        -1 <= row.state <= 1,
        c.access == Some(row.state >= 0 && row.release_at <= now && !row.is_banned),
        c.allowed == Some(
            (row.cooldown_till matches Some(till) ==> till <= now) && (row.most() matches Some(most)
                ==> row.submit_count < most),
        ),
        c.inserted,
    ensures
        submit::admission_of(c) == (if row.could_submit(
            c.rules > 0,
            c.readable && submit::all_met(c),
            now,
        ) {
            submit::Admission::Admitted
        } else {
            submit::Admission::Refused(Refusal::Locked)
        }),
{
}

/// A hint is on offer exactly where the puzzle is open and released, and the staff sees the hint as
/// enabled, not bought and available by now.
pub proof fn offers_are_what_the_staff_sees(row: StaffHintRow, now: Timestamp)
    requires
        row.hint.purchased_at is None ==> row.recorded_at is None,
    ensures
        row.hint.offered(now) <==> {
            &&& row.hint.released(now)
            &&& row.is_enabled()
            &&& row.hint.purchased_at is None
            &&& row.opens() matches Some(at) && at <= now
        },
{
}

/// The staff sees a hint as enabled exactly where it has no condition, or its condition has held, or
/// the team has bought it, and told to open only where it is enabled.
pub proof fn staff_sees_when_hints_open(row: StaffHintRow)
    ensures
        row.is_enabled() <==> !row.hint.has_condition || row.hint.enabled_at is Some
            || row.hint.purchased_at is Some,
        !row.is_enabled() ==> row.opens() is None,
        row.is_enabled() && row.hint.cooldown_after_enable && row.hint.enabled_at is Some
            ==> row.opens() == Some(row.hint.enabled_at->0 + row.hint.cooldown * 1_000_000),
        row.is_enabled() && row.hint.cooldown_after_enable && row.hint.enabled_at is None
            && row.recorded_at is Some ==> row.opens() == Some(
            row.recorded_at->0 + row.hint.cooldown * 1_000_000,
        ),
        row.is_enabled() && row.hint.cooldown_after_enable && row.hint.enabled_at is None
            && row.recorded_at is None ==> row.opens() is None,
        row.is_enabled() && !row.hint.cooldown_after_enable ==> row.opens() is Some
            && row.opens()->0 >= row.hint.opened_at + row.hint.cooldown * 1_000_000
            && row.opens()->0 >= row.hint.release_at + row.hint.cooldown * 1_000_000 && (
        row.opens()->0 == row.hint.opened_at + row.hint.cooldown * 1_000_000 || row.opens()->0
            == row.hint.release_at + row.hint.cooldown * 1_000_000),
{
}

/// What the staff is shown of a hint is what is stored of it.
pub proof fn staff_is_shown_what_is_stored(row: StaffHintRow, shown: StaffPuzzleHintStatus)
    requires
        row.is_shown_as(shown),
    ensures
        shown.id == row.hint.id,
        shown.title@ == row.hint.title@,
        shown.cooldown == row.hint.cooldown,
        shown.cost_id == row.hint.cost_id,
        shown.cost_name == row.cost_name,
        shown.cost_prec == row.cost_prec,
        shown.cost_amount == row.hint.cost_amount,
        shown.enabled <==> !row.hint.has_condition || row.hint.enabled_at is Some
            || row.hint.purchased_at is Some,
        !shown.enabled ==> shown.available_at is None,
        shown.available_at matches Some(at) ==> row.opens() == Some(at as int),
        shown.available_at is None ==> row.opens() is None,
        shown.unlocked <==> row.hint.purchased_at is Some,
        shown.unlocked_at == row.hint.purchased_at,
{
}

/// A team may answer as often as the puzzle allows and its own allowance adds; what is left falls to
/// nothing and not below, and a puzzle without a limit leaves the number open.
pub proof fn answers_left_are_counted(row: StaffStatusRow)
    ensures
        row.max_submit is None ==> row.most() is None && row.remaining() is None,
        row.max_submit matches Some(max) ==> {
            &&& row.most() == Some(max + row.allowance)
            &&& row.remaining() is Some
            &&& row.remaining()->0 >= 0
            &&& max + row.allowance > row.submit_count ==> row.remaining()->0 + row.submit_count
                == max + row.allowance
            &&& max + row.allowance <= row.submit_count ==> row.remaining()->0 == 0
        },
{
}

/// A team could answer exactly where the puzzle is open to it or solved by it, it is not banned, does
/// not wait, has answers left, and the puzzle takes answers whose requirements it meets.
pub proof fn who_could_answer(
    row: StaffStatusRow,
    enabled: bool,
    requirements_met: bool,
    now: Timestamp,
)
    requires
        -1 <= row.state <= 1,
    ensures
        row.could_submit(enabled, requirements_met, now) <==> row.state >= 0 && !row.is_banned && (
        row.cooldown_till is None || row.cooldown_till->0 <= now) && (row.max_submit is None
            || row.submit_count < row.max_submit->0 + row.allowance) && enabled && requirements_met,
        row.must_wait(now) <==> row.cooldown_till is Some && row.cooldown_till->0 > now,
{
}

/// A puzzle takes answers where it has rules that can be read; requirements that cannot be read are met
/// by nobody.
pub proof fn puzzles_with_rules_take_answers(
    rules: Option<Vec<JudgeRule>>,
    asked: Vec<PuzzleSubmitRequirement>,
    balances: Seq<Option<i64>>,
    i: int,
)
    ensures
        takes_answers(rules) <==> rules is Some && rules->0@.len() > 0,
        !meets(None, balances),
        asked@.len() == 0 ==> meets(Some(asked), balances),
        0 <= i < asked@.len() && (balances[i] is None || balances[i]->0 < asked@[i]->minimum)
            ==> !meets(Some(asked), balances),
        (forall|k: int|
            0 <= k < asked@.len() ==> (#[trigger] balances[k]) is Some && balances[k]->0
                >= asked@[k]->minimum) ==> meets(Some(asked), balances),
{
    if 0 <= i < asked@.len() {
        view::one_balance_can_be_too_low(asked@, balances, i);
    }
}

/// A status can be told where its numbers fit, and a hint where the time at which it opens does.
pub proof fn what_fits_can_be_told(row: StaffStatusRow, rows: Seq<StaffHintRow>, i: int)
    ensures
        row.is_tellable() <==> row.max_submit is None || i32::MIN <= row.max_submit->0
            + row.allowance <= i32::MAX,
        0 <= i < rows.len() ==> (rows[i].is_tellable() <==> rows[i].opens() is None || i64::MIN
            <= rows[i].opens()->0 <= i64::MAX),
        0 <= i < rows.len() && !rows[i].is_tellable() ==> !all_tellable(rows),
        rows.len() == 0 ==> all_tellable(rows),
{
}

} // verus!
