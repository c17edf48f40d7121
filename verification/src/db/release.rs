//! When puzzles are released, and what players are told of it.
use vstd::prelude::*;

use crate::clock::Timestamp;
use crate::db::patch;
use crate::db::patch::or_old;
use crate::db::feature::{FeatureChangeData, GameFeature};
use crate::error::{fault, RbInternalError};
use crate::game::judge;
use crate::ids;
use crate::model::game::RbContentType;
use crate::text;
use crate::text::trim;

verus! {

pub const RELEASE_VISIBILITY_HIDDEN: i16 = 0;

pub const RELEASE_VISIBILITY_PUBLIC: i16 = 1;

pub const RELEASE_EVENT_PHASE: i16 = 0;

pub const RELEASE_EVENT_IMMEDIATE_PUZZLES: i16 = 1;

/// A phase, as administrators see it.
#[derive(Debug)]
pub struct ReleasePhaseAdminData {
    pub id: i32,
    pub game_id: i32,
    pub title: String,
    pub description: String,
    pub content_type: RbContentType,
    pub release_at: Timestamp,
    pub visibility: i16,
    pub feature_changes: Vec<FeatureChangeData>,
    pub puzzle_count: i64,
    pub released: bool,
}

/// A phase, as it is stored.
#[derive(Debug)]
pub struct ReleasePhaseAdminRow {
    pub id: i32,
    pub game_id: i32,
    pub title: String,
    pub description: String,
    pub content_type: RbContentType,
    pub release_at: Timestamp,
    pub visibility: i16,
    pub puzzle_count: i64,
    pub released: bool,
}

/// A phase that is to be created.
#[derive(Debug)]
pub struct ReleasePhaseCreateData {
    pub title: String,
    pub description: String,
    pub content_type: RbContentType,
    pub release_at: Timestamp,
    pub visibility: i16,
    pub feature_changes: Vec<FeatureChangeData>,
}

/// What is to be changed of a phase.
#[derive(Debug)]
pub struct ReleasePhaseUpdateData {
    pub title: Option<String>,
    pub description: Option<String>,
    pub content_type: Option<RbContentType>,
    pub release_at: Option<Timestamp>,
    pub visibility: Option<i16>,
    pub feature_changes: Option<Vec<FeatureChangeData>>,
}

/// A release that players have not been told of.
#[derive(Debug, Clone, Copy, PartialEq, Eq, Structural)]
pub struct PendingReleaseEvent {
    pub id: i64,
    pub phase_id: Option<i32>,
    pub game_id: i32,
    pub occurred_at: Timestamp,
}

/// A puzzle that has been released.
#[derive(Debug)]
pub struct ReleasedPuzzleData {
    pub id: i32,
    pub slug: Option<String>,
    pub title: String,
    pub round_id: i32,
    pub round_slug: Option<String>,
    pub is_round_puzzle: bool,
}

/// A phase, as players see it.
#[derive(Debug)]
pub struct PlayerReleasePhaseData {
    pub id: i32,
    pub title: String,
    pub description: String,
    pub content_type: RbContentType,
    pub release_at: Timestamp,
}

/// A release, as players are told of it.
#[derive(Debug)]
pub struct ReleaseSyncEvent {
    pub id: i64,
    pub event_type: &'static str,
    pub occurred_at: Timestamp,
    pub phase: Option<PlayerReleasePhaseData>,
    pub puzzles: Vec<ReleasedPuzzleData>,
}

/// The releases after a cursor, and the cursor behind them.
#[derive(Debug)]
pub struct ReleaseSyncResult {
    pub cursor: i64,
    pub events: Vec<ReleaseSyncEvent>,
}

/// A change of a feature with a phase, as it is stored.
#[derive(Debug, Clone, Copy, PartialEq, Eq, Structural)]
pub struct FeatureChangeRow {
    pub phase_id: i32,
    pub feature_type: i16,
    pub target_state: i16,
}

/// The change that a row stands for, or what is wrong with the row.
pub open spec fn change_in(row: FeatureChangeRow) -> Result<FeatureChangeData, Seq<char>> {
    match GameFeature::feature_of(row.feature_type) {
        None => Err("Invalid game feature"@),
        Some(feature) => match feature.state_of(row.target_state) {
            None => Err("Invalid game feature state"@),
            Some(state) => Ok(FeatureChangeData { feature, state }),
        },
    }
}

/// What is wrong with the first bad row, where there is one.
pub open spec fn first_fault(rows: Seq<FeatureChangeRow>) -> Option<Seq<char>>
    decreases rows.len(),
{
    if rows.len() == 0 {
        None
    } else {
        match first_fault(rows.drop_last()) {
            Some(text) => Some(text),
            None => match change_in(rows.last()) {
                Ok(_) => None,
                Err(text) => Some(text),
            },
        }
    }
}

/// The changes that rows stand for, each with its phase.
pub open spec fn all_changes(rows: Seq<FeatureChangeRow>) -> Seq<(i32, FeatureChangeData)>
    decreases rows.len(),
{
    if rows.len() == 0 {
        Seq::empty()
    } else {
        let rest = all_changes(rows.drop_last());
        match change_in(rows.last()) {
            Ok(change) => rest.push((rows.last().phase_id, change)),
            Err(_) => rest,
        }
    }
}

/// Reads the changes of features, all of which must stand for one.
pub fn load_changes(rows: &Vec<FeatureChangeRow>) -> (r: Result<
    Vec<(i32, FeatureChangeData)>,
    RbInternalError,
>)
    ensures
        match r {
            Ok(changes) => first_fault(rows@) is None && changes@ == all_changes(rows@),
            Err(e) => first_fault(rows@) == Some(e.text()),
        },
{
    let mut changes: Vec<(i32, FeatureChangeData)> = Vec::new();
    let mut i: usize = 0;
    while i < rows.len()
        invariant
            i <= rows@.len(),
            first_fault(rows@.take(i as int)) is None,
            changes@ == all_changes(rows@.take(i as int)),
        decreases rows@.len() - i,
    {
        let row = rows[i];
        proof {
            assert(rows@.take(i + 1).drop_last() =~= rows@.take(i as int));
            assert(rows@.take(i + 1).last() == row);
        }
        let feature = match GameFeature::from_value(row.feature_type) {
            Some(feature) => feature,
            None => {
                proof {
                    lemma_fault_stays(rows@, i + 1);
                }
                return Err(fault("Invalid game feature"));
            },
        };
        let state = match feature.decode_state(row.target_state) {
            Some(state) => state,
            None => {
                proof {
                    lemma_fault_stays(rows@, i + 1);
                }
                return Err(fault("Invalid game feature state"));
            },
        };
        changes.push((row.phase_id, FeatureChangeData { feature, state }));
        i += 1;
    }
    assert(rows@.take(i as int) =~= rows@);
    Ok(changes)
}

proof fn lemma_fault_stays(rows: Seq<FeatureChangeRow>, n: int)
    requires
        0 <= n <= rows.len(),
        first_fault(rows.take(n)) is Some,
    ensures
        first_fault(rows) == first_fault(rows.take(n)),
    decreases rows.len(),
{
    if n == rows.len() {
        assert(rows.take(n) =~= rows);
    } else {
        assert(rows.drop_last().take(n) =~= rows.take(n));
        lemma_fault_stays(rows.drop_last(), n);
    }
}

/// The changes of one phase, of changes with their phases.
pub open spec fn changes_with(changes: Seq<(i32, FeatureChangeData)>, phase_id: i32) -> Seq<
    FeatureChangeData,
>
    decreases changes.len(),
{
    if changes.len() == 0 {
        Seq::empty()
    } else {
        let rest = changes_with(changes.drop_last(), phase_id);
        if changes.last().0 == phase_id {
            rest.push(changes.last().1)
        } else {
            rest
        }
    }
}

fn pick_changes(changes: &Vec<(i32, FeatureChangeData)>, phase_id: i32) -> (r: Vec<
    FeatureChangeData,
>)
    ensures
        r@ == changes_with(changes@, phase_id),
{
    let mut picked: Vec<FeatureChangeData> = Vec::new();
    let mut i: usize = 0;
    while i < changes.len()
        invariant
            i <= changes@.len(),
            picked@ == changes_with(changes@.take(i as int), phase_id),
        decreases changes@.len() - i,
    {
        assert(changes@.take(i + 1).drop_last() =~= changes@.take(i as int));
        assert(changes@.take(i + 1).last() == changes@[i as int]);
        if changes[i].0 == phase_id {
            picked.push(changes[i].1);
        }
        i += 1;
    }
    assert(changes@.take(i as int) =~= changes@);
    picked
}

/// Whether a phase is shown as it is stored, with its changes.
pub open spec fn shows_phase(
    shown: ReleasePhaseAdminData,
    row: ReleasePhaseAdminRow,
    changes: Seq<(i32, FeatureChangeData)>,
) -> bool {
    &&& shown.id == row.id
    &&& shown.game_id == row.game_id
    &&& shown.title == row.title
    &&& shown.description == row.description
    &&& shown.content_type == row.content_type
    &&& shown.release_at == row.release_at
    &&& shown.visibility == row.visibility
    &&& shown.puzzle_count == row.puzzle_count
    &&& shown.released == row.released
    &&& shown.feature_changes@ == changes_with(changes, row.id)
}

/// Phases, each with its changes. Each phase stands in the rows once.
pub fn list_admin(rows: Vec<ReleasePhaseAdminRow>, changes: &Vec<(i32, FeatureChangeData)>) -> (r: Vec<
    ReleasePhaseAdminData,
>)
    ensures
        r@.len() == rows@.len(),
        forall|i: int|
            0 <= i < rows@.len() ==> shows_phase(#[trigger] r@[i], rows@[i], changes@),
{
    let mut shown: Vec<ReleasePhaseAdminData> = Vec::new();
    for row in it: rows
        invariant
            it.seq() == rows@,
            shown@.len() == it.index(),
            forall|i: int|
                0 <= i < shown@.len() ==> shows_phase(#[trigger] shown@[i], rows@[i], changes@),
    {
        let feature_changes = pick_changes(changes, row.id);
        shown.push(
            ReleasePhaseAdminData {
                id: row.id,
                game_id: row.game_id,
                title: row.title,
                description: row.description,
                content_type: row.content_type,
                release_at: row.release_at,
                visibility: row.visibility,
                feature_changes,
                puzzle_count: row.puzzle_count,
                released: row.released,
            },
        );
    }
    shown
}

/// Where the first phase with an id stands, if there is one.
pub fn get_admin(phases: &Vec<ReleasePhaseAdminData>, phase_id: i32) -> (r: Option<usize>)
    ensures
        match r {
            Some(i) => {
                &&& i < phases@.len()
                &&& phases@[i as int].id == phase_id
                &&& forall|k: int| 0 <= k < i ==> (#[trigger] phases@[k]).id != phase_id
            },
            None => forall|k: int| 0 <= k < phases@.len() ==> (#[trigger] phases@[k]).id != phase_id,
        },
{
    let mut i: usize = 0;
    while i < phases.len()
        invariant
            i <= phases@.len(),
            forall|k: int| 0 <= k < i ==> (#[trigger] phases@[k]).id != phase_id,
        decreases phases@.len() - i,
    {
        if phases[i].id == phase_id {
            return Some(i);
        }
        i += 1;
    }
    None
}

/// How a change of a feature is stored: as the numbers of the feature and of the state.
pub fn replace_changes(changes: &Vec<FeatureChangeData>) -> (r: Result<
    Vec<(i16, i16)>,
    RbInternalError,
>)
    ensures
        match r {
            Ok(stored) => {
                &&& stored@.len() == changes@.len()
                &&& forall|i: int|
                    0 <= i < changes@.len() ==> (#[trigger] stored@[i]).0
                        == changes@[i].feature.code_of() && changes@[i].feature.state_code(
                        changes@[i].state,
                    ) == Some(stored@[i].1)
            },
            Err(e) => {
                &&& e.text() == "Invalid game feature state"@
                &&& exists|i: int|
                    0 <= i < changes@.len() && (#[trigger] changes@[i]).feature.state_code(
                        changes@[i].state,
                    ) is None
            },
        },
{
    let mut stored: Vec<(i16, i16)> = Vec::new();
    let mut i: usize = 0;
    while i < changes.len()
        invariant
            i <= changes@.len(),
            stored@.len() == i,
            forall|k: int|
                0 <= k < i ==> (#[trigger] stored@[k]).0 == changes@[k].feature.code_of()
                    && changes@[k].feature.state_code(changes@[k].state) == Some(stored@[k].1),
        decreases changes@.len() - i,
    {
        let change = changes[i];
        match change.feature.encode_state(change.state) {
            Some(state) => {
                stored.push((change.feature.value(), state));
            },
            None => {
                assert(changes@[i as int].feature.state_code(changes@[i as int].state) is None);
                return Err(fault("Invalid game feature state"));
            },
        }
        i += 1;
    }
    Ok(stored)
}

/// Changes that can be stored are read back as they were.
pub proof fn stored_changes_read_back(change: FeatureChangeData, phase_id: i32, state: i16)
    requires
        change.feature.state_code(change.state) == Some(state),
    ensures
        change_in(
            FeatureChangeRow {
                phase_id,
                feature_type: change.feature.code_of(),
                target_state: state,
            },
        ) == Ok::<FeatureChangeData, Seq<char>>(change),
{
    crate::db::feature::feature_codes_read_back(change.feature, change.state);
}

impl ReleasePhaseCreateData {
    /// The title and the description as they are stored, without white space around them.
    pub fn stored_texts(&self) -> (r: (String, String))
        ensures
            r.0@ == text::trimmed(self.title@),
            r.1@ == text::trimmed(self.description@),
    {
        (trim(self.title.as_str()), trim(self.description.as_str()))
    }
}

/// An optional text without white space around it.
pub open spec fn tidy(text: Option<Seq<char>>) -> Option<Seq<char>> {
    match text {
        Some(text) => Some(text::trimmed(text)),
        None => None,
    }
}

fn tidy_text(text: &Option<String>) -> (r: Option<String>)
    ensures
        judge::text_in(r) == tidy(judge::text_in(*text)),
{
    match text {
        Some(text) => Some(trim(text.as_str())),
        None => None,
    }
}

impl ReleasePhaseUpdateData {
    /// The title and the description as they are stored, without white space around them.
    pub fn stored_texts(&self) -> (r: (Option<String>, Option<String>))
        ensures
            judge::text_in(r.0) == tidy(judge::text_in(self.title)),
            judge::text_in(r.1) == tidy(judge::text_in(self.description)),
    {
        (tidy_text(&self.title), tidy_text(&self.description))
    }
}

/// How long to wait for the next phase, in seconds: not at all for one that is due.
pub fn next_delay_seconds(seconds: Option<i64>) -> (r: Option<u64>)
    ensures
        match seconds {
            Some(s) => r == Some(
                if s < 0 {
                    0u64
                } else {
                    s as u64
                },
            ),
            None => r is None,
        },
{
    match seconds {
        Some(s) => {
            if s < 0 {
                Some(0)
            } else {
                Some(s as u64)
            }
        },
        None => None,
    }
}

/// A release, as it is stored.
#[derive(Debug, Clone, Copy, PartialEq, Eq, Structural)]
pub struct ReleaseEventRow {
    pub id: i64,
    pub occurred_at: Timestamp,
    pub phase_id: Option<i32>,
    pub event_type: i16,
}

/// From where on releases are told.
pub open spec fn start_of(after: i64) -> i64 {
    if after < 0 {
        0
    } else {
        after
    }
}

/// From where on releases are told: no release has a negative number.
pub fn sync_start(after: i64) -> (r: i64)
    ensures
        r == start_of(after),
{
    if after < 0 {
        0
    } else {
        after
    }
}

/// The cursor behind some releases: the number of the last one, or where it was.
pub fn sync_cursor(rows: &Vec<ReleaseEventRow>, after: i64) -> (r: i64)
    ensures
        r == (if rows@.len() > 0 {
            rows@.last().id
        } else {
            start_of(after)
        }),
{
    if rows.len() > 0 {
        rows[rows.len() - 1].id
    } else {
        sync_start(after)
    }
}

/// Where releases come in the order of their numbers and behind the cursor, the cursor moves on.
pub proof fn cursors_move_on(rows: Seq<ReleaseEventRow>, after: i64, cursor: i64)
    requires
        cursor == (if rows.len() > 0 {
            rows.last().id
        } else {
            start_of(after)
        }),
        forall|i: int| 0 <= i < rows.len() ==> (#[trigger] rows[i]).id > start_of(after),
        forall|i: int, j: int|
            0 <= i < j < rows.len() ==> (#[trigger] rows[i]).id < (#[trigger] rows[j]).id,
    ensures
        cursor >= start_of(after),
        rows.len() > 0 ==> cursor > start_of(after),
        forall|i: int| 0 <= i < rows.len() ==> (#[trigger] rows[i]).id <= cursor,
{
    if rows.len() > 0 {
        assert(rows[rows.len() - 1].id == cursor);
    }
}

/// How a release is told: with its phase, or with its puzzles where a team has any of them.
pub fn sync_event(
    row: ReleaseEventRow,
    phase: Option<PlayerReleasePhaseData>,
    puzzles: Vec<ReleasedPuzzleData>,
) -> (r: Result<Option<ReleaseSyncEvent>, RbInternalError>)
    ensures
        if row.event_type == RELEASE_EVENT_PHASE {
            if row.phase_id is None {
                r matches Err(e) && e.text() == "Release phase event has no phase"@
            } else if phase is None {
                r matches Err(e) && e.text() == "Release phase not found"@
            } else {
                &&& r matches Ok(Some(event))
                &&& event.id == row.id
                &&& event.event_type@ == "phase_released"@
                &&& event.occurred_at == row.occurred_at
                &&& event.phase == phase
                &&& event.puzzles == puzzles
            }
        } else if row.event_type == RELEASE_EVENT_IMMEDIATE_PUZZLES {
            if puzzles@.len() == 0 {
                r matches Ok(event) && event is None
            } else {
                &&& r matches Ok(Some(event))
                &&& event.id == row.id
                &&& event.event_type@ == "puzzles_released"@
                &&& event.occurred_at == row.occurred_at
                &&& event.phase is None
                &&& event.puzzles == puzzles
            }
        } else {
            r matches Err(e) && e.text() == "Invalid release event type"@
        },
{
    if row.event_type == RELEASE_EVENT_PHASE {
        if row.phase_id.is_none() {
            return Err(fault("Release phase event has no phase"));
        }
        match phase {
            None => Err(fault("Release phase not found")),
            Some(phase) => Ok(
                Some(
                    ReleaseSyncEvent {
                        id: row.id,
                        event_type: "phase_released",
                        occurred_at: row.occurred_at,
                        phase: Some(phase),
                        puzzles,
                    },
                ),
            ),
        }
    } else if row.event_type == RELEASE_EVENT_IMMEDIATE_PUZZLES {
        if puzzles.len() == 0 {
            Ok(None)
        } else {
            Ok(
                Some(
                    ReleaseSyncEvent {
                        id: row.id,
                        event_type: "puzzles_released",
                        occurred_at: row.occurred_at,
                        phase: None,
                        puzzles,
                    },
                ),
            )
        }
    } else {
        Err(fault("Invalid release event type"))
    }
}

/// A phase that is to be stored, with its changes of features as they are stored.
#[derive(Debug)]
pub struct NewPhase {
    pub title: String,
    pub description: String,
    pub content_type: RbContentType,
    pub release_at: Timestamp,
    pub visibility: i16,
    pub changes: Vec<(i16, i16)>,
}

/// Whether changes of features are stored as pairs of numbers: of the feature and of its state.
pub open spec fn stored_as(changes: Seq<FeatureChangeData>, stored: Seq<(i16, i16)>) -> bool {
    &&& stored.len() == changes.len()
    &&& forall|i: int|
        0 <= i < changes.len() ==> (#[trigger] stored[i]).0 == changes[i].feature.code_of()
            && changes[i].feature.state_code(changes[i].state) == Some(stored[i].1)
}

/// Whether each of some changes is to a state that its feature has.
pub open spec fn storable(changes: Seq<FeatureChangeData>) -> bool {
    forall|i: int|
        0 <= i < changes.len() ==> (#[trigger] changes[i]).feature.state_code(
            changes[i].state,
        ) is Some
}

/// A phase, as it is created; a game that is not there has none.
pub fn create_admin(data: ReleasePhaseCreateData, game_exists: bool) -> (r: Result<
    Option<NewPhase>,
    RbInternalError,
>)
    ensures
        match r {
            Ok(Some(phase)) => {
                &&& game_exists
                &&& phase.title@ == text::trimmed(data.title@)
                &&& phase.description@ == text::trimmed(data.description@)
                &&& phase.content_type == data.content_type
                &&& phase.release_at == data.release_at
                &&& phase.visibility == data.visibility
                &&& stored_as(data.feature_changes@, phase.changes@)
            },
            Ok(None) => !game_exists,
            Err(e) => {
                &&& game_exists
                &&& !storable(data.feature_changes@)
                &&& e.text() == "Invalid game feature state"@
            },
        },
{
    if !game_exists {
        return Ok(None);
    }
    let (title, description) = data.stored_texts();
    match replace_changes(&data.feature_changes) {
        Ok(changes) => Ok(
            Some(
                NewPhase {
                    title,
                    description,
                    content_type: data.content_type,
                    release_at: data.release_at,
                    visibility: data.visibility,
                    changes,
                },
            ),
        ),
        Err(e) => Err(e),
    }
}

/// A phase after a change, and its changes of features where they are replaced.
#[derive(Debug)]
pub struct PhaseChange {
    pub phase: ReleasePhaseAdminRow,
    pub changes: Option<Vec<(i16, i16)>>,
}

/// Whether a phase is what a change makes of it: what the change does not name stays, and texts are
/// stored without white space around them.
pub open spec fn changed_to(
    phase: ReleasePhaseAdminRow,
    old: ReleasePhaseAdminRow,
    data: ReleasePhaseUpdateData,
) -> bool {
    &&& phase.id == old.id
    &&& phase.game_id == old.game_id
    &&& phase.title@ == patch::named_or(tidy(judge::text_in(data.title)), old.title@)
    &&& phase.description@ == patch::named_or(
        tidy(judge::text_in(data.description)),
        old.description@,
    )
    &&& phase.content_type == patch::named_or(data.content_type, old.content_type)
    &&& phase.release_at == patch::named_or(data.release_at, old.release_at)
    &&& phase.visibility == patch::named_or(data.visibility, old.visibility)
    &&& phase.puzzle_count == old.puzzle_count
    &&& phase.released == old.released
}

/// A phase after a change; a phase that is not in the game stays away.
pub fn update_admin(phase: Option<ReleasePhaseAdminRow>, data: ReleasePhaseUpdateData) -> (r:
    Result<Option<PhaseChange>, RbInternalError>)
    ensures
        match (phase, r) {
            (Some(old), Ok(Some(change))) => {
                &&& changed_to(change.phase, old, data)
                &&& match (data.feature_changes, change.changes) {
                    (Some(changes), Some(stored)) => stored_as(changes@, stored@),
                    (None, None) => true,
                    _ => false,
                }
            },
            (Some(_), Err(e)) => {
                &&& data.feature_changes matches Some(changes) && !storable(changes@)
                &&& e.text() == "Invalid game feature state"@
            },
            (None, Ok(None)) => true,
            _ => false,
        },
{
    let old = match phase {
        Some(old) => old,
        None => {
            return Ok(None);
        },
    };
    let (title, description) = data.stored_texts();
    let changes = match &data.feature_changes {
        Some(changes) => match replace_changes(changes) {
            Ok(stored) => Some(stored),
            Err(e) => {
                return Err(e);
            },
        },
        None => None,
    };
    Ok(
        Some(
            PhaseChange {
                phase: ReleasePhaseAdminRow {
                    id: old.id,
                    game_id: old.game_id,
                    title: or_old(title, old.title),
                    description: or_old(description, old.description),
                    content_type: or_old(data.content_type, old.content_type),
                    release_at: or_old(data.release_at, old.release_at),
                    visibility: or_old(data.visibility, old.visibility),
                    puzzle_count: old.puzzle_count,
                    released: old.released,
                },
                changes,
            },
        ),
    )
}

/// Whether a phase of a game may be deleted: not while puzzles wait for it.
pub fn delete_admin(phase: &Option<ReleasePhaseAdminRow>) -> (r: bool)
    ensures
        r == (phase matches Some(phase) && phase.puzzle_count == 0),
{
    match phase {
        Some(phase) => phase.puzzle_count == 0,
        None => false,
    }
}

/// When a phase is due, and whether its release has been noted.
#[derive(Debug, Clone, Copy, PartialEq, Eq, Structural)]
pub struct DueRow {
    pub id: i32,
    pub release_at: Timestamp,
    pub released: bool,
}

/// The phases whose release is to be noted: they are due, and it has not been.
pub open spec fn due(rows: Seq<DueRow>, now: Timestamp) -> Seq<i32>
    decreases rows.len(),
{
    if rows.len() == 0 {
        Seq::empty()
    } else {
        let rest = due(rows.drop_last(), now);
        if rows.last().release_at <= now && !rows.last().released {
            rest.push(rows.last().id)
        } else {
            rest
        }
    }
}

/// The phases whose release is to be noted, in the order of the rows.
pub fn materialize_due(rows: &Vec<DueRow>, now: Timestamp) -> (r: Vec<i32>)
    ensures
        r@ == due(rows@, now),
{
    let mut noted: Vec<i32> = Vec::new();
    let mut i: usize = 0;
    while i < rows.len()
        invariant
            i <= rows@.len(),
            noted@ == due(rows@.take(i as int), now),
        decreases rows@.len() - i,
    {
        assert(rows@.take(i + 1).drop_last() =~= rows@.take(i as int));
        assert(rows@.take(i + 1).last() == rows@[i as int]);
        if rows[i].release_at <= now && !rows[i].released {
            noted.push(rows[i].id);
        }
        i += 1;
    }
    assert(rows@.take(i as int) =~= rows@);
    noted
}

/// The phases after the due releases have been noted.
pub open spec fn noted(rows: Seq<DueRow>, now: Timestamp) -> Seq<DueRow> {
    rows.map_values(
        |row: DueRow| DueRow { released: row.released || row.release_at <= now, ..row },
    )
}

/// A release is noted once: as long as nothing more becomes due, there is nothing more to note.
pub proof fn releases_are_noted_once(rows: Seq<DueRow>, now: Timestamp, earlier: Timestamp)
    requires
        earlier <= now,
    ensures
        due(noted(rows, now), earlier) == Seq::<i32>::empty(),
    decreases rows.len(),
{
    if rows.len() > 0 {
        assert(noted(rows, now).drop_last() =~= noted(rows.drop_last(), now));
        releases_are_noted_once(rows.drop_last(), now, earlier);
    }
}

/// A phase with what decides whether players see it.
#[derive(Debug)]
pub struct PlayerReleasePhaseRow {
    pub id: i32,
    pub title: String,
    pub description: String,
    pub content_type: RbContentType,
    pub release_at: Timestamp,
    pub visibility: i16,
    pub released: bool,
}

impl PlayerReleasePhaseRow {
    /// Whether players see the phase: it is public, or its release has been noted, or it is due.
    pub open spec fn is_shown(self, now: Timestamp) -> bool {
        self.visibility == RELEASE_VISIBILITY_PUBLIC || self.released || self.release_at <= now
    }

    /// The phase, as players see it.
    pub open spec fn shown(self) -> PlayerReleasePhaseData {
        PlayerReleasePhaseData {
            id: self.id,
            title: self.title,
            description: self.description,
            content_type: self.content_type,
            release_at: self.release_at,
        }
    }
}

/// A phase, as players see it.
pub fn player_phase_from_row(row: PlayerReleasePhaseRow) -> (r: PlayerReleasePhaseData)
    ensures
        r == row.shown(),
{
    PlayerReleasePhaseData {
        id: row.id,
        title: row.title,
        description: row.description,
        content_type: row.content_type,
        release_at: row.release_at,
    }
}

/// The phases that players see.
pub open spec fn phases_shown(rows: Seq<PlayerReleasePhaseRow>, now: Timestamp) -> Seq<
    PlayerReleasePhaseData,
>
    decreases rows.len(),
{
    if rows.len() == 0 {
        Seq::empty()
    } else {
        let rest = phases_shown(rows.drop_last(), now);
        if rows.last().is_shown(now) {
            rest.push(rows.last().shown())
        } else {
            rest
        }
    }
}

/// The phases of a game that players see, in the order of the rows.
pub fn list_player(rows: Vec<PlayerReleasePhaseRow>, now: Timestamp) -> (r: Vec<
    PlayerReleasePhaseData,
>)
    ensures
        r@ == phases_shown(rows@, now),
{
    let ghost all = rows@;
    let mut shown: Vec<PlayerReleasePhaseData> = Vec::new();
    for row in it: rows
        invariant
            it.seq() == all,
            shown@ == phases_shown(all.take(it.index()), now),
    {
        proof {
            assert(all.take(it.index() + 1).drop_last() =~= all.take(it.index()));
            assert(all.take(it.index() + 1).last() == row);
        }
        if row.visibility == RELEASE_VISIBILITY_PUBLIC || row.released || row.release_at <= now {
            shown.push(player_phase_from_row(row));
        }
    }
    assert(all.take(all.len() as int) =~= all);
    shown
}

/// A phase that is hidden is not shown before its time.
pub proof fn hidden_phases_stay_hidden(rows: Seq<PlayerReleasePhaseRow>, now: Timestamp)
    ensures
        forall|k: int|
            0 <= k < phases_shown(rows, now).len() ==> exists|i: int|
                0 <= i < rows.len() && (#[trigger] rows[i]).is_shown(now) && rows[i].shown()
                    == #[trigger] phases_shown(rows, now)[k],
        forall|i: int|
            0 <= i < rows.len() && (#[trigger] rows[i]).is_shown(now) ==> phases_shown(
                rows,
                now,
            ).contains(rows[i].shown()),
    decreases rows.len(),
{
    if rows.len() > 0 {
        let before = rows.drop_last();
        let rest = phases_shown(before, now);
        let all = phases_shown(rows, now);
        hidden_phases_stay_hidden(before, now);
        assert forall|k: int| 0 <= k < all.len() implies exists|i: int|
            0 <= i < rows.len() && (#[trigger] rows[i]).is_shown(now) && rows[i].shown()
                == #[trigger] all[k] by {
            if k < rest.len() {
                assert(all[k] == rest[k]);
                let i = choose|i: int|
                    0 <= i < before.len() && (#[trigger] before[i]).is_shown(now)
                        && before[i].shown() == rest[k];
                assert(rows[i] == before[i]);
            } else {
                assert(rows[rows.len() - 1].shown() == all[k]);
            }
        }
        assert forall|i: int| 0 <= i < rows.len() && (#[trigger] rows[i]).is_shown(
            now,
        ) implies all.contains(rows[i].shown()) by {
            if i < before.len() {
                assert(before[i] == rows[i]);
                let k = choose|k: int| 0 <= k < rest.len() && rest[k] == before[i].shown();
                assert(all[k] == rest[k]);
            } else {
                assert(all[rest.len() as int] == rows[i].shown());
            }
        }
    }
}

/// A puzzle with what decides whether a release concerns it.
#[derive(Debug, Clone, Copy, PartialEq, Eq, Structural)]
pub struct ReleaseTarget {
    pub puzzle_id: i32,
    pub round_id: i32,
    pub release_phase_id: Option<i32>,
    /// Whether the release names the puzzle.
    pub is_named: bool,
}

impl ReleaseTarget {
    /// Whether a release concerns the puzzle: one of a phase by the phase, another by name.
    pub open spec fn is_met(self, phase_id: Option<i32>) -> bool {
        match phase_id {
            Some(_) => self.release_phase_id == phase_id,
            None => self.is_named,
        }
    }
}

/// The puzzles that a release concerns.
pub open spec fn puzzles_met(targets: Seq<ReleaseTarget>, phase_id: Option<i32>) -> Seq<i32>
    decreases targets.len(),
{
    if targets.len() == 0 {
        Seq::empty()
    } else {
        let rest = puzzles_met(targets.drop_last(), phase_id);
        if targets.last().is_met(phase_id) {
            rest.push(targets.last().puzzle_id)
        } else {
            rest
        }
    }
}

/// The rounds of the puzzles that a release concerns, each once.
pub open spec fn rounds_met(targets: Seq<ReleaseTarget>, phase_id: Option<i32>) -> Seq<i32>
    decreases targets.len(),
{
    if targets.len() == 0 {
        Seq::empty()
    } else {
        let rest = rounds_met(targets.drop_last(), phase_id);
        let last = targets.last();
        if last.is_met(phase_id) && !rest.contains(last.round_id) {
            rest.push(last.round_id)
        } else {
            rest
        }
    }
}

/// The puzzles and the rounds that a release makes stale.
pub fn event_cache_targets(targets: &Vec<ReleaseTarget>, phase_id: Option<i32>) -> (r: (
    Vec<i32>,
    Vec<i32>,
))
    ensures
        r.0@ == puzzles_met(targets@, phase_id),
        r.1@ == rounds_met(targets@, phase_id),
{
    let mut puzzles: Vec<i32> = Vec::new();
    let mut rounds: Vec<i32> = Vec::new();
    let mut i: usize = 0;
    while i < targets.len()
        invariant
            i <= targets@.len(),
            puzzles@ == puzzles_met(targets@.take(i as int), phase_id),
            rounds@ == rounds_met(targets@.take(i as int), phase_id),
        decreases targets@.len() - i,
    {
        assert(targets@.take(i + 1).drop_last() =~= targets@.take(i as int));
        assert(targets@.take(i + 1).last() == targets@[i as int]);
        let target = targets[i];
        let met = match phase_id {
            Some(id) => match target.release_phase_id {
                Some(own) => own == id,
                None => false,
            },
            None => target.is_named,
        };
        if met {
            puzzles.push(target.puzzle_id);
            if !ids::contains(&rounds, target.round_id) {
                rounds.push(target.round_id);
            }
        }
        i += 1;
    }
    assert(targets@.take(i as int) =~= targets@);
    (puzzles, rounds)
}

/// The rounds that a release makes stale are those of the puzzles, each once.
pub proof fn stale_rounds_are_those_of_the_puzzles(
    targets: Seq<ReleaseTarget>,
    phase_id: Option<i32>,
)
    ensures
        ids::distinct(rounds_met(targets, phase_id)),
        forall|i: int|
            0 <= i < targets.len() && (#[trigger] targets[i]).is_met(phase_id) ==> rounds_met(
                targets,
                phase_id,
            ).contains(targets[i].round_id),
        forall|round_id: i32| #[trigger]
            rounds_met(targets, phase_id).contains(round_id) ==> exists|i: int|
                0 <= i < targets.len() && (#[trigger] targets[i]).is_met(phase_id)
                    && targets[i].round_id == round_id,
    decreases targets.len(),
{
    if targets.len() > 0 {
        let before = targets.drop_last();
        let rest = rounds_met(before, phase_id);
        let all = rounds_met(targets, phase_id);
        stale_rounds_are_those_of_the_puzzles(before, phase_id);
        assert forall|round_id: i32| #[trigger] all.contains(round_id) implies exists|i: int|
            0 <= i < targets.len() && (#[trigger] targets[i]).is_met(phase_id)
                && targets[i].round_id == round_id by {
            let k = all.index_of(round_id);
            if k < rest.len() {
                assert(rest[k] == round_id);
                assert(rest.contains(round_id));
                let i = choose|i: int|
                    0 <= i < before.len() && (#[trigger] before[i]).is_met(phase_id)
                        && before[i].round_id == round_id;
                assert(targets[i] == before[i]);
            } else {
                assert(targets[targets.len() - 1].round_id == round_id);
            }
        }
        assert forall|i: int| 0 <= i < targets.len() && (#[trigger] targets[i]).is_met(
            phase_id,
        ) implies all.contains(targets[i].round_id) by {
            if i < before.len() {
                assert(before[i] == targets[i]);
                let k = choose|k: int| 0 <= k < rest.len() && rest[k] == before[i].round_id;
                assert(all[k] == rest[k]);
            } else if !rest.contains(targets[i].round_id) {
                assert(all[rest.len() as int] == targets[i].round_id);
            } else {
                let k = choose|k: int| 0 <= k < rest.len() && rest[k] == targets[i].round_id;
                assert(all[k] == rest[k]);
            }
        }
    }
}

/// A team's puzzle with what decides whether the team is told of its release.
#[derive(Debug)]
pub struct ReleasedPuzzleRow {
    pub puzzle: ReleasedPuzzleData,
    pub state: i16,
    pub release_phase_id: Option<i32>,
    /// Whether the release names the puzzle for the team.
    pub is_named: bool,
    pub immediate_release_at: Option<Timestamp>,
}

impl ReleasedPuzzleRow {
    /// Whether the team is told of the puzzle with a release: it is open to the team, and it waits
    /// for the phase or was released by itself.
    pub open spec fn is_told(self, event: ReleaseEventRow) -> bool {
        &&& self.state >= 0
        &&& {
            ||| event.event_type == RELEASE_EVENT_PHASE && event.phase_id is Some
                && self.release_phase_id == event.phase_id
            ||| event.event_type == RELEASE_EVENT_IMMEDIATE_PUZZLES && self.is_named
                && self.immediate_release_at is Some
        }
    }
}

/// Whether a release makes a team's content stale: one of the puzzles that the team can see waits
/// for the phase, or is named by the release.
pub fn content_turns_stale(rows: &Vec<ReleasedPuzzleRow>, phase_id: Option<i32>) -> (r: bool)
    ensures
        r == exists|i: int|
            0 <= i < rows@.len() && (#[trigger] rows@[i]).state >= 0 && ((phase_id is Some
                && rows@[i].release_phase_id == phase_id) || rows@[i].is_named),
{
    let mut i: usize = 0;
    while i < rows.len()
        invariant
            i <= rows@.len(),
            forall|k: int|
                0 <= k < i ==> !((#[trigger] rows@[k]).state >= 0 && ((phase_id is Some
                    && rows@[k].release_phase_id == phase_id) || rows@[k].is_named)),
        decreases rows@.len() - i,
    {
        let row = &rows[i];
        let waits = match (phase_id, row.release_phase_id) {
            (Some(phase), Some(own)) => phase == own,
            _ => false,
        };
        if row.state >= 0 && (waits || row.is_named) {
            assert(rows@[i as int].state >= 0);
            return true;
        }
        i += 1;
    }
    false
}

/// The puzzles that a team is told of with a release.
pub open spec fn puzzles_told(rows: Seq<ReleasedPuzzleRow>, event: ReleaseEventRow) -> Seq<
    ReleasedPuzzleData,
>
    decreases rows.len(),
{
    if rows.len() == 0 {
        Seq::empty()
    } else {
        let rest = puzzles_told(rows.drop_last(), event);
        if rows.last().is_told(event) {
            rest.push(rows.last().puzzle)
        } else {
            rest
        }
    }
}

/// The puzzles that a team is told of with a release, in the order of the rows.
pub fn released_puzzles(rows: Vec<ReleasedPuzzleRow>, event: ReleaseEventRow) -> (r: Vec<
    ReleasedPuzzleData,
>)
    ensures
        r@ == puzzles_told(rows@, event),
{
    let ghost all = rows@;
    let mut told: Vec<ReleasedPuzzleData> = Vec::new();
    for row in it: rows
        invariant
            it.seq() == all,
            told@ == puzzles_told(all.take(it.index()), event),
    {
        proof {
            assert(all.take(it.index() + 1).drop_last() =~= all.take(it.index()));
            assert(all.take(it.index() + 1).last() == row);
        }
        let of_phase = match (event.phase_id, row.release_phase_id) {
            (Some(id), Some(own)) => event.event_type == RELEASE_EVENT_PHASE && own == id,
            _ => false,
        };
        let by_itself = event.event_type == RELEASE_EVENT_IMMEDIATE_PUZZLES && row.is_named
            && row.immediate_release_at.is_some();
        if row.state >= 0 && (of_phase || by_itself) {
            told.push(row.puzzle);
        }
    }
    assert(all.take(all.len() as int) =~= all);
    told
}

/// Nobody is told of puzzles that are closed to them.
pub proof fn closed_puzzles_are_not_told(rows: Seq<ReleasedPuzzleRow>, event: ReleaseEventRow)
    ensures
        forall|k: int|
            0 <= k < puzzles_told(rows, event).len() ==> exists|i: int|
                0 <= i < rows.len() && (#[trigger] rows[i]).state >= 0 && rows[i].puzzle
                    == #[trigger] puzzles_told(rows, event)[k],
    decreases rows.len(),
{
    if rows.len() > 0 {
        let before = rows.drop_last();
        let rest = puzzles_told(before, event);
        let all = puzzles_told(rows, event);
        closed_puzzles_are_not_told(before, event);
        assert forall|k: int| 0 <= k < all.len() implies exists|i: int|
            0 <= i < rows.len() && (#[trigger] rows[i]).state >= 0 && rows[i].puzzle
                == #[trigger] all[k] by {
            if k < rest.len() {
                assert(all[k] == rest[k]);
                let i = choose|i: int|
                    0 <= i < before.len() && (#[trigger] before[i]).state >= 0 && before[i].puzzle
                        == rest[k];
                assert(rows[i] == before[i]);
            } else {
                assert(rows[rows.len() - 1].puzzle == all[k]);
            }
        }
    }
}

/// A release, and whether players have been told of it.
#[derive(Debug, Clone, Copy, PartialEq, Eq, Structural)]
pub struct NotedRelease {
    pub event: PendingReleaseEvent,
    pub notified_at: Option<Timestamp>,
}

/// The releases that players have not been told of.
pub open spec fn untold(rows: Seq<NotedRelease>) -> Seq<PendingReleaseEvent>
    decreases rows.len(),
{
    if rows.len() == 0 {
        Seq::empty()
    } else {
        let rest = untold(rows.drop_last());
        if rows.last().notified_at is None {
            rest.push(rows.last().event)
        } else {
            rest
        }
    }
}

/// The releases that players have not been told of, in the order of the rows.
pub fn pending_notifications(rows: &Vec<NotedRelease>) -> (r: Vec<PendingReleaseEvent>)
    ensures
        r@ == untold(rows@),
{
    let mut pending: Vec<PendingReleaseEvent> = Vec::new();
    let mut i: usize = 0;
    while i < rows.len()
        invariant
            i <= rows@.len(),
            pending@ == untold(rows@.take(i as int)),
        decreases rows@.len() - i,
    {
        assert(rows@.take(i + 1).drop_last() =~= rows@.take(i as int));
        assert(rows@.take(i + 1).last() == rows@[i as int]);
        if rows[i].notified_at.is_none() {
            pending.push(rows[i].event);
        }
        i += 1;
    }
    assert(rows@.take(i as int) =~= rows@);
    pending
}

/// The release after players have been told of it; the time when they were first told stays.
pub fn mark_notified(release: NotedRelease, now: Timestamp) -> (r: NotedRelease)
    ensures
        r.event == release.event,
        r.notified_at == Some(patch::named_or(release.notified_at, now)),
{
    NotedRelease { event: release.event, notified_at: Some(or_old(release.notified_at, now)) }
}

/// The cursor behind all the releases of a game: its highest number, or 0 where there is none.
pub fn release_cursor(ids: &Vec<i64>) -> (r: i64)
    ensures
        ids@.len() == 0 ==> r == 0,
        ids@.len() > 0 ==> ids@.contains(r),
        forall|i: int| 0 <= i < ids@.len() ==> #[trigger] ids@[i] <= r,
{
    if ids.len() == 0 {
        return 0;
    }
    let mut highest: i64 = ids[0];
    let mut i: usize = 1;
    while i < ids.len()
        invariant
            1 <= i <= ids@.len(),
            ids@.contains(highest),
            forall|k: int| 0 <= k < i ==> #[trigger] ids@[k] <= highest,
        decreases ids@.len() - i,
    {
        if ids[i] > highest {
            highest = ids[i];
        }
        i += 1;
    }
    highest
}

/// A change of a feature is read exactly where its feature and its state are known.
pub proof fn changes_are_read_where_they_are_known(row: FeatureChangeRow)
    ensures
        change_in(row) is Ok <==> GameFeature::feature_of(row.feature_type) is Some
            && GameFeature::feature_of(row.feature_type)->0.state_of(row.target_state) is Some,
        change_in(row) matches Ok(change) ==> GameFeature::feature_of(row.feature_type) == Some(
            change.feature,
        ) && change.feature.state_of(row.target_state) == Some(change.state),
        GameFeature::feature_of(row.feature_type) is None ==> change_in(row)
            == Err::<FeatureChangeData, Seq<char>>("Invalid game feature"@),
        GameFeature::feature_of(row.feature_type) is Some && GameFeature::feature_of(
            row.feature_type,
        )->0.state_of(row.target_state) is None ==> change_in(row) == Err::<
            FeatureChangeData,
            Seq<char>,
        >("Invalid game feature state"@),
{
}

/// Changes can be read exactly where each of them can; the first that cannot is told, and all that can
/// are read with the phase that they belong to, in their order.
pub proof fn first_faults_are_told(rows: Seq<FeatureChangeRow>, row: FeatureChangeRow)
    ensures
        first_fault(Seq::empty()) is None,
        all_changes(Seq::empty()).len() == 0,
        first_fault(rows) is Some ==> first_fault(rows.push(row)) == first_fault(rows),
        first_fault(rows) is None ==> (first_fault(rows.push(row)) is Some <==> change_in(row)
            is Err),
        first_fault(rows) is None && change_in(row) is Err ==> first_fault(rows.push(row)) == Some(
            change_in(row)->Err_0,
        ),
        change_in(row) matches Ok(change) ==> all_changes(rows.push(row)) == all_changes(rows).push(
            (row.phase_id, change),
        ),
        change_in(row) is Err ==> all_changes(rows.push(row)) == all_changes(rows),
{
    assert(rows.push(row).drop_last() =~= rows);
}

/// A phase has the changes that belong to it, in their order, and no others.
pub proof fn phases_have_their_own_changes(changes: Seq<(i32, FeatureChangeData)>, change: (i32, FeatureChangeData), phase_id: i32)
    ensures
        changes_with(Seq::empty(), phase_id).len() == 0,
        ({
            let before = changes_with(changes, phase_id);
            let after = changes_with(changes.push(change), phase_id);
            let counts = change.0 == phase_id;
            &&& counts ==> after == before.push(change.1)
            &&& !counts ==> after == before
        }),
{
    assert(changes.push(change).drop_last() =~= changes);
}

/// A phase is shown as it is stored, with its own changes.
pub proof fn phases_are_shown_as_stored(
    shown: ReleasePhaseAdminData,
    row: ReleasePhaseAdminRow,
    changes: Seq<(i32, FeatureChangeData)>,
)
    requires
        shows_phase(shown, row, changes),
    ensures
        shown.id == row.id,
        shown.game_id == row.game_id,
        shown.title@ == row.title@,
        shown.description@ == row.description@,
        shown.content_type == row.content_type,
        shown.release_at == row.release_at,
        shown.visibility == row.visibility,
        shown.puzzle_count == row.puzzle_count,
        shown.released == row.released,
        shown.feature_changes@ == changes_with(changes, row.id),
{
}

/// A change of a phase sets what it names, titles and descriptions without the blanks around them, and
/// leaves the rest.
pub proof fn changes_of_phases_touch_what_they_name(
    phase: ReleasePhaseAdminRow,
    old_phase: ReleasePhaseAdminRow,
    data: ReleasePhaseUpdateData,
)
    requires
        changed_to(phase, old_phase, data),
    ensures
        phase.id == old_phase.id,
        phase.game_id == old_phase.game_id,
        phase.puzzle_count == old_phase.puzzle_count,
        phase.released == old_phase.released,
        data.title is None ==> phase.title@ == old_phase.title@,
        data.title matches Some(title) ==> phase.title@ == text::trimmed(title@),
        data.description is None ==> phase.description@ == old_phase.description@,
        data.description matches Some(words) ==> phase.description@ == text::trimmed(words@),
        data.content_type is None ==> phase.content_type == old_phase.content_type,
        data.content_type matches Some(x) ==> phase.content_type == x,
        data.release_at is None ==> phase.release_at == old_phase.release_at,
        data.release_at matches Some(x) ==> phase.release_at == x,
        data.visibility is None ==> phase.visibility == old_phase.visibility,
        data.visibility matches Some(x) ==> phase.visibility == x,
{
}

/// Changes are stored by the numbers of their features and states, one for one, and can be stored
/// exactly where each feature has the state that it is to take.
pub proof fn changes_are_stored_by_number(
    changes: Seq<FeatureChangeData>,
    stored: Seq<(i16, i16)>,
    i: int,
)
    requires
        stored_as(changes, stored),
        0 <= i < changes.len(),
    ensures
        storable(changes),
        stored.len() == changes.len(),
        GameFeature::feature_of(stored[i].0) == Some(changes[i].feature),
        changes[i].feature.state_of(stored[i].1) == Some(changes[i].state),
        changes[i].feature.possible_states().contains(changes[i].state),
{
    assert(stored[i].0 == changes[i].feature.code_of());
    crate::db::feature::feature_codes_read_back(changes[i].feature, changes[i].state);
    assert forall|k: int| 0 <= k < changes.len() implies (
    #[trigger] changes[k]).feature.state_code(changes[k].state) is Some by {
        assert(stored[k].0 == changes[k].feature.code_of());
    }
}

/// Events are read from where the reader stopped, or from the first.
pub proof fn events_are_read_from_a_place(after: i64)
    ensures
        after >= 0 ==> start_of(after) == after,
        after < 0 ==> start_of(after) == 0,
{
}

/// A phase is due exactly where its time has come and it is not released; noting it marks those whose
/// time has come as released and changes nothing else.
pub proof fn phases_fall_due(rows: Seq<DueRow>, row: DueRow, now: Timestamp, i: int)
    ensures
        due(Seq::empty(), now).len() == 0,
        row.release_at <= now && !row.released ==> due(rows.push(row), now) == due(rows, now).push(
            row.id,
        ),
        row.release_at > now || row.released ==> due(rows.push(row), now) == due(rows, now),
        noted(rows, now).len() == rows.len(),
        0 <= i < rows.len() ==> noted(rows, now)[i].id == rows[i].id && noted(rows, now)[i].release_at
            == rows[i].release_at && (noted(rows, now)[i].released <==> rows[i].released
            || rows[i].release_at <= now),
{
    assert(rows.push(row).drop_last() =~= rows);
}

/// Players are shown phases that are public, released, or whose time has come, as they are stored.
pub proof fn phases_are_shown_to_players(
    rows: Seq<PlayerReleasePhaseRow>,
    row: PlayerReleasePhaseRow,
    now: Timestamp,
)
    ensures
        phases_shown(Seq::empty(), now).len() == 0,
        ({
            let before = phases_shown(rows, now);
            let after = phases_shown(rows.push(row), now);
            let shown = row.visibility == 1 || row.released || row.release_at <= now;
            &&& !shown ==> after == before
            &&& shown ==> {
                &&& after.len() == before.len() + 1
                &&& after.drop_last() == before
                &&& after.last().id == row.id
                &&& after.last().title@ == row.title@
                &&& after.last().description@ == row.description@
                &&& after.last().content_type == row.content_type
                &&& after.last().release_at == row.release_at
            }
        }),
{
    assert(rows.push(row).drop_last() =~= rows);
    if row.is_shown(now) {
        assert(phases_shown(rows.push(row), now).drop_last() =~= phases_shown(rows, now));
    }
}

/// A release of a phase meets the puzzles that belong to the phase, one without a phase the puzzles
/// that it names; they are met in their order, and each of their rounds once.
pub proof fn releases_meet_their_puzzles(
    targets: Seq<ReleaseTarget>,
    target: ReleaseTarget,
    phase_id: i32,
)
    ensures
        target.is_met(Some(phase_id)) <==> target.release_phase_id == Some(phase_id),
        target.is_met(None) <==> target.is_named,
        puzzles_met(Seq::empty(), None).len() == 0,
        puzzles_met(Seq::empty(), Some(phase_id)).len() == 0,
        puzzles_met(targets.push(target), Some(phase_id)) == (if target.release_phase_id == Some(
            phase_id,
        ) {
            puzzles_met(targets, Some(phase_id)).push(target.puzzle_id)
        } else {
            puzzles_met(targets, Some(phase_id))
        }),
        puzzles_met(targets.push(target), None) == (if target.is_named {
            puzzles_met(targets, None).push(target.puzzle_id)
        } else {
            puzzles_met(targets, None)
        }),
{
    assert(targets.push(target).drop_last() =~= targets);
}

/// A team is told of the puzzles that are open to it and that the event released: those of its phase,
/// or those that it names and that were released at once.
pub proof fn released_puzzles_are_told(
    rows: Seq<ReleasedPuzzleRow>,
    row: ReleasedPuzzleRow,
    event: ReleaseEventRow,
)
    ensures
        puzzles_told(Seq::empty(), event).len() == 0,
        ({
            let told = row.state >= 0 && ((event.event_type == 0 && event.phase_id is Some
                && row.release_phase_id == event.phase_id) || (event.event_type == 1 && row.is_named
                && row.immediate_release_at is Some));
            let before = puzzles_told(rows, event);
            let after = puzzles_told(rows.push(row), event);
            &&& told ==> after == before.push(row.puzzle)
            &&& !told ==> after == before
        }),
{
    assert(rows.push(row).drop_last() =~= rows);
}

/// A release is still to be told exactly where it was not told before.
pub proof fn releases_are_told_once(rows: Seq<NotedRelease>, row: NotedRelease)
    ensures
        untold(Seq::empty()).len() == 0,
        ({
            let before = untold(rows);
            let after = untold(rows.push(row));
            let counts = row.notified_at is None;
            &&& counts ==> after == before.push(row.event)
            &&& !counts ==> after == before
        }),
{
    assert(rows.push(row).drop_last() =~= rows);
}

/// One change to a state that its feature does not have is enough to keep all from being stored.
pub proof fn changes_without_a_state_are_not_stored(changes: Seq<FeatureChangeData>, i: int)
    ensures
        0 <= i < changes.len() && changes[i].feature.state_code(changes[i].state) is None
            ==> !storable(changes),
        changes.len() == 0 ==> storable(changes),
{
}

} // verus!
