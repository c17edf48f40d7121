//! What teams and staff see of a puzzle.
use vstd::prelude::*;

use crate::clock::Timestamp;
use crate::db::anmt::RbAnnouncementShowData;
use crate::db::game::GameUserInfo;
use crate::db::puzzle::hint::RbHintTeamStateShowData;
use crate::db::puzzle::submit::PuzzleSubmitRequirement;
use crate::game::judge::JudgeRule;
use crate::model::game::{RbContentType, RbJudgeAction, RbPuzzleType, RbTeamPuzzleState};
use crate::num;
use crate::num::saturating_mul;
use crate::text;
use crate::text::parse_i32;

verus! {

/// What a judge knows of a puzzle.
#[derive(Debug)]
pub struct PuzzleJudgeInfo {
    pub id: i32,
    pub game_id: i32,
    pub title: String,
}

/// How a puzzle is looked up within its game.
#[derive(Debug, Clone, Copy, PartialEq, Eq, Structural)]
pub enum PuzzleRef {
    Id(i32),
    Slug,
}

/// Whether a reference to a puzzle is an id; what is none is a slug.
pub fn get_puzzle_id_by_game_ref(puzzle_ref: &str) -> (r: PuzzleRef)
    ensures
        r == (match text::signed_value(puzzle_ref@) {
            Some(v) if i32::MIN <= v <= i32::MAX => PuzzleRef::Id(v as i32),
            _ => PuzzleRef::Slug,
        }),
{
    match parse_i32(puzzle_ref) {
        Some(id) => PuzzleRef::Id(id),
        None => PuzzleRef::Slug,
    }
}

/// What a user gets to know of a puzzle's game: nothing where the puzzle is not found, the user is
/// in no team, or the team may not see the puzzle.
pub fn get_puzzle_user_info(game_id: Option<i32>, info: Option<GameUserInfo>, access: bool) -> (r:
    Option<GameUserInfo>)
    ensures
        r == (match (game_id, info) {
            (Some(game_id), Some(info)) if info.team_id is Some && access => Some(
                GameUserInfo { game_id, team_id: info.team_id },
            ),
            _ => None,
        }),
{
    match (game_id, info) {
        (Some(game_id), Some(info)) => match info.team_id {
            Some(team_id) => {
                if access {
                    Some(GameUserInfo { game_id, team_id: Some(team_id) })
                } else {
                    None
                }
            },
            None => None,
        },
        _ => None,
    }
}

/// How a puzzle stands to a team: its state, and when it is released.
#[derive(Debug, Clone, Copy, PartialEq, Eq, Structural)]
pub struct TeamPuzzleAccess {
    pub state: i16,
    pub release_at: Timestamp,
}

impl TeamPuzzleAccess {
    /// Whether the puzzle is open to the team: it has been opened, and released.
    pub open spec fn is_open(self, now: Timestamp) -> bool {
        self.state >= 0 && self.release_at <= now
    }
}

/// Whether a team may see a puzzle: it is open to the team, and the team is not banned.
pub fn can_team_access_puzzle(access: Option<TeamPuzzleAccess>, is_banned: bool, now: Timestamp) -> (r:
    bool)
    ensures
        r == (!is_banned && (access matches Some(access) && access.is_open(now))),
{
    match access {
        Some(access) => !is_banned && access.state >= 0 && access.release_at <= now,
        None => false,
    }
}

/// A hint of a puzzle, and whether a team has unlocked it.
#[derive(Debug)]
pub struct TeamHintRow {
    pub hint: RbHintTeamStateShowData,
    pub unlocked: bool,
}

/// The hints that a team has unlocked.
pub open spec fn unlocked_hints(rows: Seq<TeamHintRow>) -> Seq<RbHintTeamStateShowData>
    decreases rows.len(),
{
    if rows.len() == 0 {
        Seq::empty()
    } else {
        let rest = unlocked_hints(rows.drop_last());
        if rows.last().unlocked {
            rest.push(rows.last().hint)
        } else {
            rest
        }
    }
}

/// The hints of a puzzle whose content a team reads: those that it has unlocked, while the puzzle is
/// open to it.
pub fn get_hints_team_state(
    rows: Vec<TeamHintRow>,
    access: Option<TeamPuzzleAccess>,
    now: Timestamp,
) -> (r: Vec<RbHintTeamStateShowData>)
    ensures
        r@ == (if access matches Some(access) && access.is_open(now) {
            unlocked_hints(rows@)
        } else {
            Seq::empty()
        }),
{
    let mut shown: Vec<RbHintTeamStateShowData> = Vec::new();
    if !can_team_access_puzzle(access, false, now) {
        return shown;
    }
    let ghost all = rows@;
    for row in it: rows
        invariant
            it.seq() == all,
            shown@ == unlocked_hints(all.take(it.index())),
    {
        proof {
            assert(all.take(it.index() + 1).drop_last() =~= all.take(it.index()));
            assert(all.take(it.index() + 1).last() == row);
        }
        if row.unlocked {
            shown.push(row.hint);
        }
    }
    assert(all.take(all.len() as int) =~= all);
    shown
}

/// A puzzle's round, as it is shown.
#[derive(Debug)]
pub struct RbPuzzleShowRoundData {
    pub id: i32,
    pub slug: Option<String>,
    pub title: String,
}

/// A requirement, as it is shown.
#[derive(Debug)]
pub struct PuzzleSubmitRequirementShowData {
    pub requirement_type: &'static str,
    pub currency_id: i32,
    pub currency_name: String,
    pub currency_prec: i32,
    pub minimum: i64,
}

/// A puzzle, as it is shown.
#[derive(Debug)]
pub struct RbPuzzleShowData {
    pub id: i32,
    pub slug: Option<String>,
    pub title: String,
    pub ptype: RbPuzzleType,
    pub round: RbPuzzleShowRoundData,
    pub game_id: i32,
    pub submission_enabled: bool,
    pub submit_requirements: Vec<PuzzleSubmitRequirementShowData>,
    pub announcements: Vec<RbAnnouncementShowData>,
}

/// How far a team has come with a puzzle, as it is shown.
#[derive(Debug)]
pub struct RbPuzzleTeamStateShowData {
    pub state: RbTeamPuzzleState,
    pub max_submit: Option<i32>,
    pub submit_count: i64,
    pub answers: Vec<String>,
    pub utime_at: Timestamp,
    pub cooldown_till: Option<Timestamp>,
}

/// How far a team has come with a puzzle, as it is stored.
#[derive(Debug)]
pub struct PuzzleTeamStateRow {
    pub state: i16,
    pub max_submit: Option<i32>,
    pub submit_count: Option<i64>,
    pub answers: Option<Vec<String>>,
    pub utime_at: Timestamp,
    pub cooldown_till: Option<Timestamp>,
}

/// Whether a state is shown as it is stored: what was not counted is none.
pub open spec fn shows_state(shown: RbPuzzleTeamStateShowData, row: PuzzleTeamStateRow) -> bool {
    &&& shown.state == RbTeamPuzzleState::from_code(row.state)
    &&& shown.max_submit == row.max_submit
    &&& shown.submit_count == (match row.submit_count {
        Some(n) => n,
        None => 0,
    })
    &&& shown.answers@ == (match row.answers {
        Some(answers) => answers@,
        None => Seq::empty(),
    })
    &&& shown.utime_at == row.utime_at
    &&& shown.cooldown_till == row.cooldown_till
}

/// How far a team has come with a puzzle: nothing is shown where the puzzle is not open to it.
pub fn get_puzzle_team_state(row: Option<PuzzleTeamStateRow>) -> (r: Option<
    RbPuzzleTeamStateShowData,
>)
    ensures
        match row {
            Some(row) => r matches Some(shown) && shows_state(shown, row),
            None => r is None,
        },
{
    match row {
        Some(row) => {
            let submit_count: i64 = match row.submit_count {
                Some(n) => n,
                None => 0,
            };
            let answers = match row.answers {
                Some(answers) => answers,
                None => Vec::new(),
            };
            Some(
                RbPuzzleTeamStateShowData {
                    state: row.state.into(),
                    max_submit: row.max_submit,
                    submit_count,
                    answers,
                    utime_at: row.utime_at,
                    cooldown_till: row.cooldown_till,
                },
            )
        },
        None => None,
    }
}

/// A puzzle together with how far a team has come with it.
#[derive(Debug)]
pub struct RbPuzzleForTeamData {
    pub data: RbPuzzleShowData,
    pub state: RbPuzzleTeamStateShowData,
}

/// A currency, as requirements show it.
#[derive(Debug)]
pub struct CurrencyName {
    pub id: i32,
    pub name: String,
    pub prec: i32,
}

/// The last of some currencies with an id.
pub open spec fn currency_with(currencies: Seq<CurrencyName>, id: i32) -> Option<CurrencyName>
    decreases currencies.len(),
{
    if currencies.len() == 0 {
        None
    } else if currencies.last().id == id {
        Some(currencies.last())
    } else {
        currency_with(currencies.drop_last(), id)
    }
}

fn find_currency(currencies: &Vec<CurrencyName>, id: i32) -> (r: Option<&CurrencyName>)
    ensures
        match currency_with(currencies@, id) {
            Some(c) => r == Some(&c),
            None => r is None,
        },
{
    let mut i: usize = currencies.len();
    proof {
        assert(currencies@.take(i as int) =~= currencies@);
    }
    while i > 0
        invariant
            i <= currencies@.len(),
            currency_with(currencies@, id) == currency_with(currencies@.take(i as int), id),
        decreases i,
    {
        i -= 1;
        proof {
            assert(currencies@.take(i + 1).drop_last() =~= currencies@.take(i as int));
            assert(currencies@.take(i + 1).last() == currencies@[i as int]);
        }
        if currencies[i].id == id {
            return Some(&currencies[i]);
        }
    }
    None
}

/// What is shown of a requirement.
pub struct ShownRequirement {
    pub requirement_type: Seq<char>,
    pub currency_id: i32,
    pub currency_name: Seq<char>,
    pub currency_prec: i32,
    pub minimum: i64,
}

impl PuzzleSubmitRequirementShowData {
    pub open spec fn shown(self) -> ShownRequirement {
        ShownRequirement {
            requirement_type: self.requirement_type@,
            currency_id: self.currency_id,
            currency_name: self.currency_name@,
            currency_prec: self.currency_prec,
            minimum: self.minimum,
        }
    }
}

/// What is shown of some requirements: those that name a currency of the game.
pub open spec fn shown_requirements(
    requirements: Seq<PuzzleSubmitRequirement>,
    currencies: Seq<CurrencyName>,
) -> Seq<ShownRequirement>
    decreases requirements.len(),
{
    if requirements.len() == 0 {
        Seq::empty()
    } else {
        let rest = shown_requirements(requirements.drop_last(), currencies);
        match requirements.last() {
            PuzzleSubmitRequirement::CurrencyMinimum { currency_id, minimum } => match currency_with(
                currencies,
                currency_id,
            ) {
                Some(c) => rest.push(
                    ShownRequirement {
                        requirement_type: "currency_minimum"@,
                        currency_id,
                        currency_name: c.name@,
                        currency_prec: c.prec,
                        minimum,
                    },
                ),
                None => rest,
            },
        }
    }
}

/// The requirements of a puzzle as they are shown.
pub fn load_submit_requirements(
    requirements: &Vec<PuzzleSubmitRequirement>,
    currencies: &Vec<CurrencyName>,
) -> (r: Vec<PuzzleSubmitRequirementShowData>)
    ensures
        r@.map_values(|d: PuzzleSubmitRequirementShowData| d.shown()) == shown_requirements(
            requirements@,
            currencies@,
        ),
{
    let mut shown: Vec<PuzzleSubmitRequirementShowData> = Vec::new();
    let mut i: usize = 0;
    proof {
        assert(shown@.map_values(|d: PuzzleSubmitRequirementShowData| d.shown())
            =~= shown_requirements(requirements@.take(0), currencies@));
    }
    while i < requirements.len()
        invariant
            i <= requirements@.len(),
            shown@.map_values(|d: PuzzleSubmitRequirementShowData| d.shown()) == shown_requirements(
                requirements@.take(i as int),
                currencies@,
            ),
        decreases requirements@.len() - i,
    {
        let ghost before = shown@.map_values(|d: PuzzleSubmitRequirementShowData| d.shown());
        proof {
            assert(requirements@.take(i + 1).drop_last() =~= requirements@.take(i as int));
            assert(requirements@.take(i + 1).last() == requirements@[i as int]);
        }
        match &requirements[i] {
            PuzzleSubmitRequirement::CurrencyMinimum { currency_id, minimum } => {
                if let Some(currency) = find_currency(currencies, *currency_id) {
                    shown.push(
                        PuzzleSubmitRequirementShowData {
                            requirement_type: "currency_minimum",
                            currency_id: *currency_id,
                            currency_name: currency.name.clone(),
                            currency_prec: currency.prec,
                            minimum: *minimum,
                        },
                    );
                    proof {
                        assert(shown@.map_values(|d: PuzzleSubmitRequirementShowData| d.shown())
                            =~= before.push(shown@.last().shown()));
                    }
                }
            },
        }
        i += 1;
    }
    assert(requirements@.take(i as int) =~= requirements@);
    shown
}

/// Whether a puzzle takes answers at all: its rules can be read, and there is one.
pub fn submission_enabled(rules: &Option<Vec<JudgeRule>>) -> (r: bool)
    ensures
        r == (rules matches Some(rules) && rules@.len() > 0),
{
    match rules {
        Some(rules) => rules.len() > 0,
        None => false,
    }
}

/// One answer, as it is shown to a team.
#[derive(Debug)]
pub struct SubmissionUserShowData {
    pub user_name: String,
    pub user_answer: String,
    pub norm_answer: String,
    pub saction: RbJudgeAction,
    pub sresult: Option<String>,
    pub real_answer: Option<String>,
    pub ctime_at: Timestamp,
}

/// A page of answers.
#[derive(Debug)]
pub struct SubmissionPageData {
    pub data: Vec<SubmissionUserShowData>,
    pub total: i64,
}

/// How many rows come before a page.
pub fn page_offset(page: i64, limit: i64) -> (r: i64)
    ensures
        r == num::saturated(page * limit),
{
    saturating_mul(page, limit)
}

/// How many answers come before a page for a team.
pub fn get_team_submissions(page: i64) -> (r: i64)
    ensures
        r == num::saturated(page * 10),
{
    page_offset(page, 10)
}

/// How many rows there are in all: every row of a page says so, and an empty page has none.
pub fn page_total(totals: &Vec<Option<i64>>) -> (r: i64)
    ensures
        r == (if totals@.len() > 0 && totals@[0] is Some {
            totals@[0]->0
        } else {
            0
        }),
{
    if totals.len() == 0 {
        return 0;
    }
    match totals[0] {
        Some(total) => total,
        None => 0,
    }
}

/// Whether each requirement is met by the balance at its place.
pub open spec fn all_met(
    requirements: Seq<PuzzleSubmitRequirement>,
    balances: Seq<Option<i64>>,
) -> bool {
    forall|i: int|
        0 <= i < requirements.len() ==> (#[trigger] requirements[i]).met_by(balances[i])
}

/// Whether a team meets requirements, given its balance for each. Requirements that cannot be read
/// are not met.
pub fn submit_requirements_met(
    requirements: &Option<Vec<PuzzleSubmitRequirement>>,
    balances: &Vec<Option<i64>>,
) -> (r: bool)
    requires
        requirements matches Some(rs) ==> rs@.len() == balances@.len(),
    ensures
        r == (requirements matches Some(rs) && all_met(rs@, balances@)),
{
    match requirements {
        None => false,
        Some(rs) => {
            let mut i: usize = 0;
            while i < rs.len()
                invariant
                    i <= rs@.len(),
                    rs@.len() == balances@.len(),
                    *requirements == Some(*rs),
                    forall|k: int| 0 <= k < i ==> (#[trigger] rs@[k]).met_by(balances@[k]),
                decreases rs@.len() - i,
            {
                if !rs[i].is_met(balances[i]) {
                    assert(!all_met(rs@, balances@));
                    return false;
                }
                i += 1;
            }
            true
        },
    }
}

/// What a hint says, as the staff see it.
#[derive(Debug)]
pub struct StaffPuzzleHintContent {
    pub id: i32,
    pub title: String,
    pub content: String,
    pub content_type: RbContentType,
}

/// One answer, as the staff see it.
#[derive(Debug)]
pub struct StaffPuzzleSubmission {
    pub id: i32,
    pub user_id: i32,
    pub user_name: String,
    pub user_answer: String,
    pub norm_answer: String,
    pub saction: RbJudgeAction,
    pub sresult: Option<String>,
    pub real_answer: Option<String>,
    pub ignored: bool,
    pub ctime_at: Timestamp,
}

/// A page of answers for the staff.
#[derive(Debug)]
pub struct StaffPuzzleSubmissionPage {
    pub data: Vec<StaffPuzzleSubmission>,
    pub total: i64,
}

/// How many answers come before a page for the staff, where the team has the puzzle.
pub fn get_staff_puzzle_submissions(exists_for_team: bool, page: i64, limit: i64) -> (r: Option<i64>)
    ensures
        r == (if exists_for_team {
            Some(num::saturated(page * limit))
        } else {
            None
        }),
{
    if exists_for_team {
        Some(page_offset(page, limit))
    } else {
        None
    }
}

/// A puzzle is open to a team that has it, once it is released.
pub proof fn open_puzzles_are_released(access: TeamPuzzleAccess, now: Timestamp, later: Timestamp)
    requires
        now <= later,
    ensures
        access.is_open(now) <==> access.state >= 0 && access.release_at <= now,
        access.is_open(now) ==> access.is_open(later),
{
}

/// Hints are shown in full exactly where they are unlocked, in the order of the rows.
pub proof fn unlocked_hints_are_shown(rows: Seq<TeamHintRow>, row: TeamHintRow)
    ensures
        unlocked_hints(Seq::empty()).len() == 0,
        row.unlocked ==> unlocked_hints(rows.push(row)) == unlocked_hints(rows).push(row.hint),
        !row.unlocked ==> unlocked_hints(rows.push(row)) == unlocked_hints(rows),
{
    assert(rows.push(row).drop_last() =~= rows);
}

/// How a team stands with a puzzle is shown as it is stored; nothing stored counts as no answers.
pub proof fn states_are_shown_as_they_are_stored(
    shown: RbPuzzleTeamStateShowData,
    row: PuzzleTeamStateRow,
)
    requires
        shows_state(shown, row),
    ensures
        shown.max_submit == row.max_submit,
        row.submit_count is None ==> shown.submit_count == 0,
        row.submit_count matches Some(n) ==> shown.submit_count == n,
        row.answers is None ==> shown.answers@.len() == 0,
        row.answers matches Some(answers) ==> shown.answers@ == answers@,
        shown.utime_at == row.utime_at,
        shown.cooldown_till == row.cooldown_till,
        row.state == 1 <==> shown.state == RbTeamPuzzleState::Solved,
{
}

/// A currency is found by its number wherever one of them has it.
pub proof fn currencies_are_found_by_number(currencies: Seq<CurrencyName>, id: i32)
    ensures
        currency_with(currencies, id) is Some <==> exists|i: int|
            0 <= i < currencies.len() && (#[trigger] currencies[i]).id == id,
        currency_with(currencies, id) matches Some(c) ==> c.id == id && currencies.contains(c),
    decreases currencies.len(),
{
    if currencies.len() > 0 {
        let init = currencies.drop_last();
        currencies_are_found_by_number(init, id);
        assert(currencies[currencies.len() - 1] == currencies.last());
        if exists|i: int| 0 <= i < init.len() && (#[trigger] init[i]).id == id {
            let i = choose|i: int| 0 <= i < init.len() && (#[trigger] init[i]).id == id;
            assert(currencies[i] == init[i]);
        }
        if exists|i: int| 0 <= i < currencies.len() && (#[trigger] currencies[i]).id == id {
            let i = choose|i: int| 0 <= i < currencies.len() && (#[trigger] currencies[i]).id == id;
            if i < init.len() {
                assert(init[i] == currencies[i]);
            }
        }
        if currency_with(init, id) is Some {
            let c = currency_with(init, id)->0;
            let i = choose|i: int| 0 <= i < init.len() && init[i] == c;
            assert(currencies[i] == c);
        }
    }
}

/// A requirement is shown with the name of its currency, and not at all where no currency has its
/// number.
pub proof fn requirements_are_shown_by_currency(
    requirements: Seq<PuzzleSubmitRequirement>,
    currencies: Seq<CurrencyName>,
    currency_id: i32,
    minimum: i64,
)
    ensures
        shown_requirements(Seq::empty(), currencies).len() == 0,
        ({
            let before = shown_requirements(requirements, currencies);
            let after = shown_requirements(
                requirements.push(PuzzleSubmitRequirement::CurrencyMinimum { currency_id, minimum }),
                currencies,
            );
            let known = exists|i: int|
                0 <= i < currencies.len() && (#[trigger] currencies[i]).id == currency_id;
            &&& !known ==> after == before
            &&& known ==> {
                &&& after.len() == before.len() + 1
                &&& after.drop_last() == before
                &&& after.last().currency_id == currency_id
                &&& after.last().minimum == minimum
                &&& after.last().requirement_type == "currency_minimum"@
                &&& exists|i: int|
                    0 <= i < currencies.len() && (#[trigger] currencies[i]).id == currency_id
                        && currencies[i].name@ == after.last().currency_name && currencies[i].prec
                        == after.last().currency_prec
            }
        }),
{
    let asked = PuzzleSubmitRequirement::CurrencyMinimum { currency_id, minimum };
    assert(requirements.push(asked).drop_last() =~= requirements);
    assert(requirements.push(asked).last() == asked);
    currencies_are_found_by_number(currencies, currency_id);
    if currency_with(currencies, currency_id) is Some {
        let c = currency_with(currencies, currency_id)->0;
        let before = shown_requirements(requirements, currencies);
        let after = shown_requirements(requirements.push(asked), currencies);
        assert(after.drop_last() =~= before);
        let i = choose|i: int| 0 <= i < currencies.len() && currencies[i] == c;
        assert(currencies[i].id == currency_id);
    }
}

/// All requirements are met exactly where each balance is there and reaches what is asked for.
pub proof fn one_balance_can_be_too_low(
    requirements: Seq<PuzzleSubmitRequirement>,
    balances: Seq<Option<i64>>,
    i: int,
)
    requires
        0 <= i < requirements.len(),
    ensures
        balances[i] is None || balances[i]->0 < requirements[i]->minimum ==> !all_met(
            requirements,
            balances,
        ),
        (forall|k: int|
            0 <= k < requirements.len() ==> (#[trigger] balances[k]) is Some && balances[k]->0
                >= requirements[k]->minimum) ==> all_met(requirements, balances),
{
    if all_met(requirements, balances) {
        assert(requirements[i].met_by(balances[i]));
    }
}

} // verus!
