//! How administrators change puzzles and hints.
use vstd::prelude::*;

use crate::clock::Timestamp;
use crate::db::patch;
use crate::db::patch::or_old;
use crate::ids;
use crate::ids::insert_all;
use crate::json::{Json, J};

verus! {

/// A puzzle, as administrators see it.
#[derive(Debug)]
pub struct RbPuzzleAdminData {
    pub id: i32,
    pub game_id: i32,
    pub slug: Option<String>,
    pub sort: i32,
    pub title: String,
    pub ptype: i16,
    pub judge: Json,
    pub penalty: Json,
    pub submit_requirements: Json,
    pub max_submit: Option<i32>,
    pub unlock_cond: Option<String>,
    pub release_phase_id: Option<i32>,
    pub immediate_release_at: Option<Timestamp>,
    pub round_id: i32,
    pub ticket_enabled: bool,
    pub ticket_cooldown: i32,
    pub ctime_at: Timestamp,
}

/// A puzzle that is to be created.
#[derive(Debug)]
pub struct RbPuzzleCreateData {
    pub slug: Option<String>,
    pub sort: i32,
    pub title: String,
    pub ptype: i16,
    pub content: String,
    pub content_type: i16,
    pub judge: Json,
    pub penalty: Json,
    pub submit_requirements: Json,
    pub max_submit: Option<i32>,
    pub unlock_cond: Option<String>,
    pub release_phase_id: Option<i32>,
    pub release_immediately: bool,
    pub round_id: i32,
    pub ticket_enabled: bool,
    pub ticket_cooldown: i32,
}

/// The rules of a puzzle for which none are given.
pub fn default_judge() -> (r: Json)
    ensures
        r@ == J::Array(Seq::empty()),
{
    Json::Array(Vec::new())
}

/// The penalty of a puzzle for which none is given.
pub fn default_penalty() -> (r: Json)
    ensures
        r@ == J::Array(Seq::empty()),
{
    Json::Array(Vec::new())
}

/// The requirements of a puzzle for which none are given.
pub fn default_submit_requirements() -> (r: Json)
    ensures
        r@ == J::Array(Seq::empty()),
{
    Json::Array(Vec::new())
}

/// Whether a puzzle has tickets where nothing is said of them.
pub fn default_ticket_enabled() -> (r: bool)
    ensures
        r,
{
    true
}

/// What is to be changed of a puzzle. What is not named stays; what is named as nothing is taken
/// away.
#[derive(Debug)]
pub struct RbPuzzleUpdateData {
    pub slug: Option<Option<String>>,
    pub sort: Option<i32>,
    pub title: Option<String>,
    pub ptype: Option<i16>,
    pub judge: Option<Json>,
    pub penalty: Option<Json>,
    pub submit_requirements: Option<Json>,
    pub max_submit: Option<Option<i32>>,
    pub unlock_cond: Option<Option<String>>,
    pub release_phase_id: Option<Option<i32>>,
    pub release_immediately: Option<bool>,
    pub round_id: Option<i32>,
    pub ticket_enabled: Option<bool>,
    pub ticket_cooldown: Option<i32>,
}

/// A release phase that puzzles are to be released with.
#[derive(Debug, Clone, Copy, PartialEq, Eq, Structural)]
pub struct TargetPhase {
    pub game_id: i32,
    pub release_at: Timestamp,
    /// Whether the phase has been released.
    pub has_event: bool,
}

/// Whether puzzles of a game may be put into a phase, if it is there: it is one of the game, ahead
/// of now, and not released.
pub open spec fn takes_puzzles(phase: Option<TargetPhase>, game_id: i32, now: Timestamp) -> bool {
    phase matches Some(p) && p.game_id == game_id && p.release_at > now && !p.has_event
}

/// Whether the release of puzzles of a game may be set: not with a phase and at once, and only with
/// a phase that takes puzzles.
pub open spec fn may_release(
    named_phase: Option<i32>,
    phase: Option<TargetPhase>,
    release_immediately: bool,
    game_id: i32,
    now: Timestamp,
) -> bool {
    named_phase is Some ==> !release_immediately && takes_puzzles(phase, game_id, now)
}

/// Whether the release of puzzles of a game may be set.
pub fn release_allowed(
    named_phase: Option<i32>,
    phase: Option<TargetPhase>,
    release_immediately: bool,
    game_id: i32,
    now: Timestamp,
) -> (r: bool)
    ensures
        r == may_release(named_phase, phase, release_immediately, game_id, now),
{
    if named_phase.is_none() {
        return true;
    }
    match phase {
        Some(p) => !release_immediately && p.game_id == game_id && p.release_at > now
            && !p.has_event,
        None => false,
    }
}

/// A puzzle that can be stored, with the block that it shows at first.
#[derive(Debug)]
pub struct NewPuzzle {
    pub game_id: i32,
    pub release_phase_id: Option<i32>,
    pub immediate_release_at: Option<Timestamp>,
    pub block_name: &'static str,
    pub block_sort: i32,
}

/// What is stored of a puzzle beside what was given, where it can be created: its round must be
/// there, given with the game that it is of, and its release must be allowed.
pub fn admin_create(
    data: &RbPuzzleCreateData,
    round_game: Option<i32>,
    phase: Option<TargetPhase>,
    now: Timestamp,
) -> (r: Option<NewPuzzle>)
    ensures
        r is Some <==> (round_game matches Some(game_id) && may_release(
            data.release_phase_id,
            phase,
            data.release_immediately,
            game_id,
            now,
        )),
        r matches Some(new) ==> {
            &&& Some(new.game_id) == round_game
            &&& new.release_phase_id == (if data.release_immediately {
                None
            } else {
                data.release_phase_id
            })
            &&& new.immediate_release_at == (if data.release_immediately {
                Some(now)
            } else {
                None
            })
            &&& new.block_name@ == "Default"@
            &&& new.block_sort == 0
        },
{
    let game_id = match round_game {
        Some(id) => id,
        None => {
            return None;
        },
    };
    if !release_allowed(data.release_phase_id, phase, data.release_immediately, game_id, now) {
        return None;
    }
    Some(
        NewPuzzle {
            game_id,
            release_phase_id: if data.release_immediately {
                None
            } else {
                data.release_phase_id
            },
            immediate_release_at: if data.release_immediately {
                Some(now)
            } else {
                None
            },
            block_name: "Default",
            block_sort: 0,
        },
    )
}

/// What a change of a puzzle depends on beside the puzzle.
#[derive(Debug)]
pub struct PuzzleSurroundings {
    /// The rounds that open with the puzzle.
    pub opened_rounds: Vec<i32>,
    /// The phase that is named, if it is there.
    pub phase: Option<TargetPhase>,
    /// Whether the round that is named is there.
    pub round_exists: bool,
    pub now: Timestamp,
}

impl RbPuzzleUpdateData {
    /// Whether the puzzle is to be released at once.
    pub open spec fn immediately(self) -> bool {
        self.release_immediately == Some(true)
    }

    /// Whether a change may be made: its release must be allowed, and a puzzle that opens a round
    /// stays in that round.
    pub open spec fn is_allowed(self, game_id: i32, around: PuzzleSurroundings) -> bool {
        &&& !(self.immediately() && self.release_phase_id is Some)
        &&& self.release_phase_id matches Some(named) ==> may_release(
            named,
            around.phase,
            false,
            game_id,
            around.now,
        )
        &&& self.round_id matches Some(target) ==> around.round_exists && forall|i: int|
            0 <= i < around.opened_rounds@.len() ==> #[trigger] around.opened_rounds@[i] == target
    }
}

/// A puzzle as a change leaves it: what is not named stays, and so does the place of a puzzle that
/// opens a round.
pub open spec fn changed_puzzle(
    puzzle: RbPuzzleAdminData,
    data: RbPuzzleUpdateData,
    around: PuzzleSurroundings,
) -> RbPuzzleAdminData {
    RbPuzzleAdminData {
        id: puzzle.id,
        game_id: puzzle.game_id,
        slug: patch::named_or(data.slug, puzzle.slug),
        sort: if around.opened_rounds@.len() > 0 {
            puzzle.sort
        } else {
            patch::named_or(data.sort, puzzle.sort)
        },
        title: patch::named_or(data.title, puzzle.title),
        ptype: patch::named_or(data.ptype, puzzle.ptype),
        judge: patch::named_or(data.judge, puzzle.judge),
        penalty: patch::named_or(data.penalty, puzzle.penalty),
        submit_requirements: patch::named_or(data.submit_requirements, puzzle.submit_requirements),
        max_submit: patch::named_or(data.max_submit, puzzle.max_submit),
        unlock_cond: patch::named_or(data.unlock_cond, puzzle.unlock_cond),
        release_phase_id: if data.immediately() {
            None
        } else {
            patch::named_or(data.release_phase_id, puzzle.release_phase_id)
        },
        immediate_release_at: if data.immediately() {
            Some(around.now)
        } else if data.release_phase_id is Some {
            None
        } else {
            puzzle.immediate_release_at
        },
        round_id: patch::named_or(data.round_id, puzzle.round_id),
        ticket_enabled: patch::named_or(data.ticket_enabled, puzzle.ticket_enabled),
        ticket_cooldown: patch::named_or(data.ticket_cooldown, puzzle.ticket_cooldown),
        ctime_at: puzzle.ctime_at,
    }
}

/// How a change of a puzzle ends.
#[derive(Debug)]
pub struct PuzzleChange {
    /// Whether earlier immediate releases of the puzzle are forgotten.
    pub clears_releases: bool,
    /// The changed puzzle, where it may be changed.
    pub puzzle: Option<RbPuzzleAdminData>,
    /// When the puzzle is logged as released.
    pub released_at: Option<Timestamp>,
}

fn opens_only(opened_rounds: &Vec<i32>, round_id: i32) -> (r: bool)
    ensures
        r == (forall|i: int|
            0 <= i < opened_rounds@.len() ==> #[trigger] opened_rounds@[i] == round_id),
{
    let mut i: usize = 0;
    while i < opened_rounds.len()
        invariant
            i <= opened_rounds@.len(),
            forall|k: int| 0 <= k < i ==> #[trigger] opened_rounds@[k] == round_id,
        decreases opened_rounds@.len() - i,
    {
        if opened_rounds[i] != round_id {
            return false;
        }
        i += 1;
    }
    true
}

/// Changes a puzzle. Earlier immediate releases are forgotten wherever a release is asked for, even
/// where the change is refused.
pub fn admin_update(
    puzzle: RbPuzzleAdminData,
    data: RbPuzzleUpdateData,
    around: &PuzzleSurroundings,
) -> (r: PuzzleChange)
    ensures
        r.clears_releases == (data.release_phase_id is Some || data.immediately()),
        r.puzzle == (if data.is_allowed(puzzle.game_id, *around) {
            Some(changed_puzzle(puzzle, data, *around))
        } else {
            None
        }),
        r.released_at == (if data.is_allowed(puzzle.game_id, *around) && data.immediately() {
            Some(around.now)
        } else {
            None
        }),
{
    let immediately = match data.release_immediately {
        Some(now) => now,
        None => false,
    };
    let phase_is_set = data.release_phase_id.is_some();
    let clears_releases = phase_is_set || immediately;
    let release_ok = match data.release_phase_id {
        Some(named) => !immediately && release_allowed(
            named,
            around.phase,
            false,
            puzzle.game_id,
            around.now,
        ),
        None => true,
    };
    let round_ok = match data.round_id {
        Some(target) => around.round_exists && opens_only(&around.opened_rounds, target),
        None => true,
    };
    if !release_ok || !round_ok {
        return PuzzleChange { clears_releases, puzzle: None, released_at: None };
    }
    let changed = RbPuzzleAdminData {
        id: puzzle.id,
        game_id: puzzle.game_id,
        slug: or_old(data.slug, puzzle.slug),
        sort: if around.opened_rounds.len() > 0 {
            puzzle.sort
        } else {
            or_old(data.sort, puzzle.sort)
        },
        title: or_old(data.title, puzzle.title),
        ptype: or_old(data.ptype, puzzle.ptype),
        judge: or_old(data.judge, puzzle.judge),
        penalty: or_old(data.penalty, puzzle.penalty),
        submit_requirements: or_old(data.submit_requirements, puzzle.submit_requirements),
        max_submit: or_old(data.max_submit, puzzle.max_submit),
        unlock_cond: or_old(data.unlock_cond, puzzle.unlock_cond),
        release_phase_id: if immediately {
            None
        } else {
            or_old(data.release_phase_id, puzzle.release_phase_id)
        },
        immediate_release_at: if immediately {
            Some(around.now)
        } else if phase_is_set {
            None
        } else {
            puzzle.immediate_release_at
        },
        round_id: or_old(data.round_id, puzzle.round_id),
        ticket_enabled: or_old(data.ticket_enabled, puzzle.ticket_enabled),
        ticket_cooldown: or_old(data.ticket_cooldown, puzzle.ticket_cooldown),
        ctime_at: puzzle.ctime_at,
    };
    PuzzleChange {
        clears_releases,
        puzzle: Some(changed),
        released_at: if immediately {
            Some(around.now)
        } else {
            None
        },
    }
}

/// A puzzle is released with a phase or at once, never both: a change that sets its release leaves
/// it so.
pub proof fn releases_exclude_each_other(
    puzzle: RbPuzzleAdminData,
    data: RbPuzzleUpdateData,
    around: PuzzleSurroundings,
)
    requires
        puzzle.release_phase_id is None || puzzle.immediate_release_at is None,
    ensures
        ({
            let changed = changed_puzzle(puzzle, data, around);
            changed.release_phase_id is None || changed.immediate_release_at is None
        }),
{
}

/// A change that names nothing changes nothing.
pub proof fn an_empty_change_changes_nothing(
    puzzle: RbPuzzleAdminData,
    data: RbPuzzleUpdateData,
    around: PuzzleSurroundings,
)
    requires
        data.slug is None,
        data.sort is None,
        data.title is None,
        data.ptype is None,
        data.judge is None,
        data.penalty is None,
        data.submit_requirements is None,
        data.max_submit is None,
        data.unlock_cond is None,
        data.release_phase_id is None,
        !data.immediately(),
        data.round_id is None,
        data.ticket_enabled is None,
        data.ticket_cooldown is None,
    ensures
        data.is_allowed(puzzle.game_id, around),
        changed_puzzle(puzzle, data, around) == puzzle,
{
}

/// How a change of the release of many puzzles ends.
#[derive(Debug, Clone, Copy, PartialEq, Eq, Structural)]
pub enum BatchRelease {
    /// Some puzzle could not be changed, so none is.
    RolledBack,
    /// All were changed, and with the given time they are logged as released.
    Changed(Option<Timestamp>),
}

/// How a change of the release of many puzzles ends, given how many were named and how many of
/// those are puzzles of the game: either all of them are changed, or none is.
pub fn admin_batch_update_release_phase(
    asked_for: usize,
    found: usize,
    game_id: i32,
    release_phase_id: Option<i32>,
    phase: Option<TargetPhase>,
    release_immediately: bool,
    now: Timestamp,
) -> (r: BatchRelease)
    ensures
        r == ({
            let changed: usize = if may_release(
                release_phase_id,
                phase,
                release_immediately,
                game_id,
                now,
            ) {
                found
            } else {
                0
            };
            if changed != asked_for {
                BatchRelease::RolledBack
            } else if release_immediately && changed > 0 {
                BatchRelease::Changed(Some(now))
            } else {
                BatchRelease::Changed(None)
            }
        }),
{
    let allowed = release_allowed(release_phase_id, phase, release_immediately, game_id, now);
    let changed: usize = if allowed {
        found
    } else {
        0
    };
    if changed != asked_for {
        BatchRelease::RolledBack
    } else if release_immediately && changed > 0 {
        BatchRelease::Changed(Some(now))
    } else {
        BatchRelease::Changed(None)
    }
}

/// A puzzle and the game that it is of.
#[derive(Debug, Clone, Copy, PartialEq, Eq, Structural)]
pub struct PuzzlePlace {
    pub puzzle_id: i32,
    pub game_id: i32,
}

/// How far a team is with a puzzle.
#[derive(Debug, Clone, Copy, PartialEq, Eq, Structural)]
pub struct TeamPlace {
    pub team_id: i32,
    pub puzzle: PuzzlePlace,
    pub state: i16,
}

/// The puzzles of a game among those that are named.
pub open spec fn released(places: Seq<PuzzlePlace>, game_id: i32, named: Seq<i32>) -> Seq<i32>
    decreases places.len(),
{
    if places.len() == 0 {
        Seq::empty()
    } else {
        let rest = released(places.drop_last(), game_id, named);
        let place = places.last();
        if place.game_id == game_id && named.contains(place.puzzle_id) {
            rest.push(place.puzzle_id)
        } else {
            rest
        }
    }
}

/// The puzzles of a game among those that are named, each with the teams that can see it.
pub open spec fn reached(places: Seq<TeamPlace>, game_id: i32, named: Seq<i32>) -> Seq<(i32, i32)>
    decreases places.len(),
{
    if places.len() == 0 {
        Seq::empty()
    } else {
        let rest = reached(places.drop_last(), game_id, named);
        let place = places.last();
        if place.puzzle.game_id == game_id && named.contains(place.puzzle.puzzle_id) && place.state
            >= 0 {
            rest.push((place.puzzle.puzzle_id, place.team_id))
        } else {
            rest
        }
    }
}

/// A release that was made at once: its puzzles, and the teams that it reaches.
#[derive(Debug)]
pub struct ImmediateRelease {
    pub game_id: i32,
    pub occurred_at: Timestamp,
    pub puzzle_ids: Vec<i32>,
    pub team_ids: Vec<(i32, i32)>,
}

/// Notes that puzzles were released at once. Puzzles of other games are left out, and so are teams
/// that cannot see the puzzle.
pub fn create_immediate_release_event(
    game_id: i32,
    named: &Vec<i32>,
    occurred_at: Timestamp,
    puzzles: &Vec<PuzzlePlace>,
    teams: &Vec<TeamPlace>,
) -> (r: ImmediateRelease)
    ensures
        r.game_id == game_id,
        r.occurred_at == occurred_at,
        r.puzzle_ids@ == released(puzzles@, game_id, named@),
        r.team_ids@ == reached(teams@, game_id, named@),
{
    let mut puzzle_ids: Vec<i32> = Vec::new();
    let mut i: usize = 0;
    while i < puzzles.len()
        invariant
            i <= puzzles@.len(),
            puzzle_ids@ == released(puzzles@.take(i as int), game_id, named@),
        decreases puzzles@.len() - i,
    {
        let place = puzzles[i];
        assert(puzzles@.take(i + 1).drop_last() =~= puzzles@.take(i as int));
        assert(puzzles@.take(i + 1).last() == place);
        if place.game_id == game_id && ids::contains(named, place.puzzle_id) {
            puzzle_ids.push(place.puzzle_id);
        }
        i += 1;
    }
    assert(puzzles@.take(i as int) =~= puzzles@);
    let mut team_ids: Vec<(i32, i32)> = Vec::new();
    let mut j: usize = 0;
    while j < teams.len()
        invariant
            j <= teams@.len(),
            team_ids@ == reached(teams@.take(j as int), game_id, named@),
        decreases teams@.len() - j,
    {
        let place = teams[j];
        assert(teams@.take(j + 1).drop_last() =~= teams@.take(j as int));
        assert(teams@.take(j + 1).last() == place);
        if place.puzzle.game_id == game_id && place.state >= 0 && ids::contains(
            named,
            place.puzzle.puzzle_id,
        ) {
            team_ids.push((place.puzzle.puzzle_id, place.team_id));
        }
        j += 1;
    }
    assert(teams@.take(j as int) =~= teams@);
    ImmediateRelease { game_id, occurred_at, puzzle_ids, team_ids }
}

/// A release reaches teams through its own puzzles only: where all puzzles that teams are at are
/// stored, each puzzle that a team is reached through is released.
pub proof fn only_released_puzzles_reach_teams(
    puzzles: Seq<PuzzlePlace>,
    teams: Seq<TeamPlace>,
    game_id: i32,
    named: Seq<i32>,
    i: int,
)
    requires
        forall|k: int| 0 <= k < teams.len() ==> puzzles.contains((#[trigger] teams[k]).puzzle),
        0 <= i < reached(teams, game_id, named).len(),
    ensures
        released(puzzles, game_id, named).contains(reached(teams, game_id, named)[i].0),
    decreases teams.len(),
{
    let rest = teams.drop_last();
    let last = teams[teams.len() - 1];
    if i < reached(rest, game_id, named).len() {
        assert forall|k: int| 0 <= k < rest.len() implies puzzles.contains(
            (#[trigger] rest[k]).puzzle,
        ) by {
            assert(teams[k] == rest[k]);
        }
        only_released_puzzles_reach_teams(puzzles, rest, game_id, named, i);
    } else {
        lemma_released(puzzles, game_id, named, last.puzzle);
    }
}

proof fn lemma_released(
    puzzles: Seq<PuzzlePlace>,
    game_id: i32,
    named: Seq<i32>,
    place: PuzzlePlace,
)
    requires
        puzzles.contains(place),
        place.game_id == game_id,
        named.contains(place.puzzle_id),
    ensures
        released(puzzles, game_id, named).contains(place.puzzle_id),
    decreases puzzles.len(),
{
    let all = released(puzzles, game_id, named);
    let rest = released(puzzles.drop_last(), game_id, named);
    if puzzles.last() == place {
        assert(all[all.len() - 1] == place.puzzle_id);
    } else {
        let k = puzzles.index_of(place);
        assert(puzzles.drop_last()[k] == place);
        lemma_released(puzzles.drop_last(), game_id, named, place);
        assert(all[rest.index_of(place.puzzle_id)] == place.puzzle_id);
    }
}

/// What was cleared of a puzzle.
#[derive(Debug)]
pub struct AdminClearPuzzleTeamStatesResult {
    pub team_count: usize,
    pub puzzle_states: usize,
    pub submissions: usize,
    pub hints: usize,
    pub tickets: usize,
    pub triggers: usize,
    pub team_ids: Vec<i32>,
}

/// What was cleared of a puzzle, given the teams of all rows that were taken away. Each team is
/// named once, in ascending order.
pub fn admin_clear_puzzle_team_states(
    puzzle_states: &Vec<i32>,
    submissions: &Vec<i32>,
    hints: &Vec<i32>,
    tickets: &Vec<i32>,
    triggers: &Vec<i32>,
) -> (r: AdminClearPuzzleTeamStatesResult)
    ensures
        r.puzzle_states == puzzle_states@.len(),
        r.submissions == submissions@.len(),
        r.hints == hints@.len(),
        r.tickets == tickets@.len(),
        r.triggers == triggers@.len(),
        r.team_count == r.team_ids@.len(),
        ids::ascending(r.team_ids@),
        r.team_ids@.to_set() == puzzle_states@.to_set() + submissions@.to_set() + hints@.to_set()
            + tickets@.to_set() + triggers@.to_set(),
{
    let mut team_ids: Vec<i32> = Vec::new();
    insert_all(&mut team_ids, puzzle_states);
    insert_all(&mut team_ids, submissions);
    insert_all(&mut team_ids, hints);
    insert_all(&mut team_ids, tickets);
    insert_all(&mut team_ids, triggers);
    assert(Seq::<i32>::empty().to_set() + puzzle_states@.to_set() =~= puzzle_states@.to_set());
    AdminClearPuzzleTeamStatesResult {
        team_count: team_ids.len(),
        puzzle_states: puzzle_states.len(),
        submissions: submissions.len(),
        hints: hints.len(),
        tickets: tickets.len(),
        triggers: triggers.len(),
        team_ids,
    }
}

/// A hint, as administrators see it.
#[derive(Debug)]
pub struct RbHintAdminData {
    pub id: i32,
    pub sort: i32,
    pub title: String,
    pub title_hidden: bool,
    pub content: String,
    pub content_type: i16,
    pub cooldown: i32,
    pub enable_cond: Option<String>,
    pub cooldown_after_enable: bool,
    pub cost_id: Option<i32>,
    pub cost_amount: i64,
    pub backend_function: Option<String>,
    pub puzzle_id: i32,
    pub ctime_at: Timestamp,
}

/// A hint that is to be created.
#[derive(Debug)]
pub struct RbHintCreateData {
    pub sort: i32,
    pub title: String,
    pub title_hidden: bool,
    pub content: String,
    pub content_type: i16,
    pub cooldown: i32,
    pub enable_cond: Option<String>,
    pub cooldown_after_enable: bool,
    pub cost_id: Option<i32>,
    pub cost_amount: i64,
    pub backend_function: Option<String>,
    pub puzzle_id: i32,
}

/// What is to be changed of a hint. What is not named stays; what is named as nothing is taken
/// away.
#[derive(Debug)]
pub struct RbHintUpdateData {
    pub sort: Option<i32>,
    pub title: Option<String>,
    pub title_hidden: Option<bool>,
    pub content: Option<String>,
    pub content_type: Option<i16>,
    pub cooldown: Option<i32>,
    pub enable_cond: Option<Option<String>>,
    pub cooldown_after_enable: Option<bool>,
    pub cost_id: Option<Option<i32>>,
    pub cost_amount: Option<i64>,
    pub backend_function: Option<Option<String>>,
    pub puzzle_id: Option<i32>,
}

/// A hint as a change leaves it: what is not named stays. A hint whose currency is taken away costs
/// nothing, and one whose condition is taken away does not wait for it.
pub open spec fn changed_hint(hint: RbHintAdminData, data: RbHintUpdateData) -> RbHintAdminData {
    RbHintAdminData {
        id: hint.id,
        sort: patch::named_or(data.sort, hint.sort),
        title: patch::named_or(data.title, hint.title),
        title_hidden: patch::named_or(data.title_hidden, hint.title_hidden),
        content: patch::named_or(data.content, hint.content),
        content_type: patch::named_or(data.content_type, hint.content_type),
        cooldown: patch::named_or(data.cooldown, hint.cooldown),
        enable_cond: patch::named_or(data.enable_cond, hint.enable_cond),
        cooldown_after_enable: if data.enable_cond matches Some(None) {
            false
        } else {
            patch::named_or(data.cooldown_after_enable, hint.cooldown_after_enable)
        },
        cost_id: patch::named_or(data.cost_id, hint.cost_id),
        cost_amount: if data.cost_id matches Some(None) {
            0
        } else {
            patch::named_or(data.cost_amount, hint.cost_amount)
        },
        backend_function: patch::named_or(data.backend_function, hint.backend_function),
        puzzle_id: patch::named_or(data.puzzle_id, hint.puzzle_id),
        ctime_at: hint.ctime_at,
    }
}

/// Changes a hint, unless a puzzle is named that is not there.
pub fn admin_update_hint(hint: RbHintAdminData, data: RbHintUpdateData, puzzle_exists: bool) -> (r:
    Option<RbHintAdminData>)
    ensures
        r == (if data.puzzle_id is Some && !puzzle_exists {
            None
        } else {
            Some(changed_hint(hint, data))
        }),
{
    if data.puzzle_id.is_some() && !puzzle_exists {
        return None;
    }
    let unconditional = match &data.enable_cond {
        Some(cond) => cond.is_none(),
        None => false,
    };
    let free = match data.cost_id {
        Some(cost_id) => cost_id.is_none(),
        None => false,
    };
    Some(
        RbHintAdminData {
            id: hint.id,
            sort: or_old(data.sort, hint.sort),
            title: or_old(data.title, hint.title),
            title_hidden: or_old(data.title_hidden, hint.title_hidden),
            content: or_old(data.content, hint.content),
            content_type: or_old(data.content_type, hint.content_type),
            cooldown: or_old(data.cooldown, hint.cooldown),
            enable_cond: or_old(data.enable_cond, hint.enable_cond),
            cooldown_after_enable: if unconditional {
                false
            } else {
                or_old(data.cooldown_after_enable, hint.cooldown_after_enable)
            },
            cost_id: or_old(data.cost_id, hint.cost_id),
            cost_amount: if free {
                0
            } else {
                or_old(data.cost_amount, hint.cost_amount)
            },
            backend_function: or_old(data.backend_function, hint.backend_function),
            puzzle_id: or_old(data.puzzle_id, hint.puzzle_id),
            ctime_at: hint.ctime_at,
        },
    )
}

/// A hint whose currency is taken away costs nothing.
pub proof fn hints_without_a_currency_are_free(hint: RbHintAdminData, data: RbHintUpdateData)
    requires
        data.cost_id matches Some(None),
    ensures
        changed_hint(hint, data).cost_id is None,
        changed_hint(hint, data).cost_amount == 0,
{
}

/// A change of a puzzle sets what it names and leaves the rest; the number, the game and the time that
/// it was made are never changed. Where the puzzle was opened to teams its place stays.
pub proof fn changes_touch_what_they_name(puzzle: RbPuzzleAdminData, data: RbPuzzleUpdateData, around: PuzzleSurroundings)
    ensures
        ({
            let changed = changed_puzzle(puzzle, data, around);
            &&& data.slug is None ==> changed.slug == puzzle.slug
            &&& data.slug matches Some(x) ==> changed.slug == x
            &&& data.title is None ==> changed.title == puzzle.title
            &&& data.title matches Some(x) ==> changed.title == x
            &&& data.ptype is None ==> changed.ptype == puzzle.ptype
            &&& data.ptype matches Some(x) ==> changed.ptype == x
            &&& data.judge is None ==> changed.judge == puzzle.judge
            &&& data.judge matches Some(x) ==> changed.judge == x
            &&& data.penalty is None ==> changed.penalty == puzzle.penalty
            &&& data.penalty matches Some(x) ==> changed.penalty == x
            &&& data.submit_requirements is None ==> changed.submit_requirements == puzzle.submit_requirements
            &&& data.submit_requirements matches Some(x) ==> changed.submit_requirements == x
            &&& data.max_submit is None ==> changed.max_submit == puzzle.max_submit
            &&& data.max_submit matches Some(x) ==> changed.max_submit == x
            &&& data.unlock_cond is None ==> changed.unlock_cond == puzzle.unlock_cond
            &&& data.unlock_cond matches Some(x) ==> changed.unlock_cond == x
            &&& data.round_id is None ==> changed.round_id == puzzle.round_id
            &&& data.round_id matches Some(x) ==> changed.round_id == x
            &&& data.ticket_enabled is None ==> changed.ticket_enabled == puzzle.ticket_enabled
            &&& data.ticket_enabled matches Some(x) ==> changed.ticket_enabled == x
            &&& data.ticket_cooldown is None ==> changed.ticket_cooldown == puzzle.ticket_cooldown
            &&& data.ticket_cooldown matches Some(x) ==> changed.ticket_cooldown == x
            &&& changed.id == puzzle.id && changed.game_id == puzzle.game_id && changed.ctime_at
                == puzzle.ctime_at
            &&& data.sort is None || around.opened_rounds@.len() > 0 ==> changed.sort == puzzle.sort
            &&& data.sort is Some && around.opened_rounds@.len() == 0 ==> data.sort == Some(
                changed.sort,
            )
            &&& data.release_immediately == Some(true) ==> changed.release_phase_id is None
                && changed.immediate_release_at == Some(around.now)
            &&& data.release_immediately != Some(true) && data.release_phase_id is Some
                ==> changed.release_phase_id == data.release_phase_id->0
                && changed.immediate_release_at is None
            &&& data.release_immediately != Some(true) && data.release_phase_id is None
                ==> changed.release_phase_id == puzzle.release_phase_id
                && changed.immediate_release_at == puzzle.immediate_release_at
        }),
{
}

/// A change of a puzzle is allowed exactly where it does not ask for two releases, the phase that it
/// names is one of the puzzle's game that lies ahead and was not told of yet, and the round that it
/// names is there and the only one in which the puzzle was opened.
pub proof fn changes_are_allowed(
    data: RbPuzzleUpdateData,
    game_id: i32,
    around: PuzzleSurroundings,
)
    ensures
        data.release_immediately == Some(true) && data.release_phase_id is Some ==> !data.is_allowed(
            game_id,
            around,
        ),
        data.round_id is Some && !around.round_exists ==> !data.is_allowed(game_id, around),
        forall|i: int|
            data.round_id is Some && 0 <= i < around.opened_rounds@.len()
                && #[trigger] around.opened_rounds@[i] != data.round_id->0 ==> !data.is_allowed(
                game_id,
                around,
            ),
        data.release_phase_id matches Some(Some(_)) && (around.phase is None || (
        around.phase->0.game_id != game_id || around.phase->0.release_at <= around.now
            || around.phase->0.has_event)) ==> !data.is_allowed(game_id, around),
        (data.release_immediately != Some(true) || data.release_phase_id is None) && (
        data.release_phase_id matches Some(Some(_)) ==> around.phase is Some
            && around.phase->0.game_id == game_id && around.phase->0.release_at > around.now
            && !around.phase->0.has_event) && (data.round_id is Some ==> around.round_exists
            && around.opened_rounds@.len() == 0) ==> data.is_allowed(game_id, around),
{
}

/// A new puzzle may name a phase only where it is not released at once and the phase is one of its game
/// that lies ahead and was not told of yet.
pub proof fn phases_take_puzzles_ahead_of_time(
    named_phase: Option<i32>,
    phase: TargetPhase,
    release_immediately: bool,
    game_id: i32,
    now: Timestamp,
)
    ensures
        may_release(None, Some(phase), release_immediately, game_id, now),
        may_release(None, None, release_immediately, game_id, now),
        named_phase is Some ==> !may_release(named_phase, None, release_immediately, game_id, now),
        named_phase is Some ==> (may_release(
            named_phase,
            Some(phase),
            release_immediately,
            game_id,
            now,
        ) <==> !release_immediately && phase.game_id == game_id && phase.release_at > now
            && !phase.has_event),
{
}

/// Puzzles are released where they are named and belong to the game, and they reach the teams of the
/// game to which they are open.
pub proof fn releases_reach_what_is_named(
    puzzles: Seq<PuzzlePlace>,
    puzzle: PuzzlePlace,
    teams: Seq<TeamPlace>,
    team: TeamPlace,
    game_id: i32,
    named: Seq<i32>,
)
    ensures
        released(Seq::empty(), game_id, named).len() == 0,
        reached(Seq::empty(), game_id, named).len() == 0,
        puzzle.game_id == game_id && named.contains(puzzle.puzzle_id) ==> released(
            puzzles.push(puzzle),
            game_id,
            named,
        ) == released(puzzles, game_id, named).push(puzzle.puzzle_id),
        puzzle.game_id != game_id || !named.contains(puzzle.puzzle_id) ==> released(
            puzzles.push(puzzle),
            game_id,
            named,
        ) == released(puzzles, game_id, named),
        team.puzzle.game_id == game_id && named.contains(team.puzzle.puzzle_id) && team.state >= 0
            ==> reached(teams.push(team), game_id, named) == reached(teams, game_id, named).push(
            (team.puzzle.puzzle_id, team.team_id),
        ),
        team.puzzle.game_id != game_id || !named.contains(team.puzzle.puzzle_id) || team.state < 0
            ==> reached(teams.push(team), game_id, named) == reached(teams, game_id, named),
{
    assert(puzzles.push(puzzle).drop_last() =~= puzzles);
    assert(teams.push(team).drop_last() =~= teams);
}

/// A change of a hint sets what it names and leaves the rest; a hint that loses its condition waits for
/// none, and one that loses its currency costs nothing.
pub proof fn changes_of_hints_touch_what_they_name(hint: RbHintAdminData, data: RbHintUpdateData)
    ensures
        ({
            let changed = changed_hint(hint, data);
            &&& data.sort is None ==> changed.sort == hint.sort
            &&& data.sort matches Some(x) ==> changed.sort == x
            &&& data.title is None ==> changed.title == hint.title
            &&& data.title matches Some(x) ==> changed.title == x
            &&& data.title_hidden is None ==> changed.title_hidden == hint.title_hidden
            &&& data.title_hidden matches Some(x) ==> changed.title_hidden == x
            &&& data.content is None ==> changed.content == hint.content
            &&& data.content matches Some(x) ==> changed.content == x
            &&& data.content_type is None ==> changed.content_type == hint.content_type
            &&& data.content_type matches Some(x) ==> changed.content_type == x
            &&& data.cooldown is None ==> changed.cooldown == hint.cooldown
            &&& data.cooldown matches Some(x) ==> changed.cooldown == x
            &&& data.enable_cond is None ==> changed.enable_cond == hint.enable_cond
            &&& data.enable_cond matches Some(x) ==> changed.enable_cond == x
            &&& data.cost_id is None ==> changed.cost_id == hint.cost_id
            &&& data.cost_id matches Some(x) ==> changed.cost_id == x
            &&& data.backend_function is None ==> changed.backend_function == hint.backend_function
            &&& data.backend_function matches Some(x) ==> changed.backend_function == x
            &&& data.puzzle_id is None ==> changed.puzzle_id == hint.puzzle_id
            &&& data.puzzle_id matches Some(x) ==> changed.puzzle_id == x
            &&& changed.id == hint.id && changed.ctime_at == hint.ctime_at
            &&& data.enable_cond == Some(None::<String>) ==> !changed.cooldown_after_enable
            &&& data.enable_cond != Some(None::<String>) && data.cooldown_after_enable is Some
                ==> data.cooldown_after_enable == Some(changed.cooldown_after_enable)
            &&& data.enable_cond != Some(None::<String>) && data.cooldown_after_enable is None
                ==> changed.cooldown_after_enable == hint.cooldown_after_enable
            &&& data.cost_id == Some(None::<i32>) ==> changed.cost_amount == 0
            &&& data.cost_id != Some(None::<i32>) && data.cost_amount is Some ==> data.cost_amount
                == Some(changed.cost_amount)
            &&& data.cost_id != Some(None::<i32>) && data.cost_amount is None ==> changed.cost_amount
                == hint.cost_amount
        }),
{
}

} // verus!
