//! The features of a game that can be opened and closed.
use vstd::prelude::*;

use crate::clock::Timestamp;
use crate::error::{fault, RbInternalError};

verus! {

#[derive(Debug, Clone, Copy, PartialEq, Eq, Structural)]
pub enum GameFeature {
    TeamFormation,
    DirectMessage,
    PuzzleTicket,
    Leaderboard,
    Currency,
}

#[derive(Debug, Clone, Copy, PartialEq, Eq, Structural)]
pub enum GameFeatureState {
    Closed,
    ExistingOnly,
    Open,
    Live,
    Locked,
}

impl GameFeature {
    /// The number that stands for a feature in storage.
    pub open spec fn code_of(self) -> i16 {
        match self {
            GameFeature::TeamFormation => 0,
            GameFeature::DirectMessage => 1,
            GameFeature::PuzzleTicket => 2,
            GameFeature::Leaderboard => 3,
            GameFeature::Currency => 4,
        }
    }

    /// The word that stands for a feature outside storage.
    pub open spec fn word_of(self) -> Seq<char> {
        match self {
            GameFeature::TeamFormation => "team_formation"@,
            GameFeature::DirectMessage => "direct_message"@,
            GameFeature::PuzzleTicket => "puzzle_ticket"@,
            GameFeature::Leaderboard => "leaderboard"@,
            GameFeature::Currency => "currency"@,
        }
    }

    /// The word that stands for a feature outside storage.
    pub fn word(self) -> (r: &'static str)
        ensures
            r@ == self.word_of(),
    {
        match self {
            GameFeature::TeamFormation => "team_formation",
            GameFeature::DirectMessage => "direct_message",
            GameFeature::PuzzleTicket => "puzzle_ticket",
            GameFeature::Leaderboard => "leaderboard",
            GameFeature::Currency => "currency",
        }
    }

    /// The number that stands for a feature's state in storage, where the feature has that state.
    pub open spec fn state_code(self, state: GameFeatureState) -> Option<i16> {
        match (self, state) {
            (GameFeature::TeamFormation, GameFeatureState::Closed) => Some(0),
            (GameFeature::TeamFormation, GameFeatureState::Open) => Some(1),
            (GameFeature::DirectMessage, GameFeatureState::Closed) => Some(0),
            (GameFeature::DirectMessage, GameFeatureState::ExistingOnly) => Some(1),
            (GameFeature::DirectMessage, GameFeatureState::Open) => Some(2),
            (GameFeature::PuzzleTicket, GameFeatureState::Closed) => Some(0),
            (GameFeature::PuzzleTicket, GameFeatureState::ExistingOnly) => Some(1),
            (GameFeature::PuzzleTicket, GameFeatureState::Open) => Some(2),
            (GameFeature::Leaderboard, GameFeatureState::Live) => Some(0),
            (GameFeature::Leaderboard, GameFeatureState::Locked) => Some(1),
            (GameFeature::Currency, GameFeatureState::Closed) => Some(0),
            (GameFeature::Currency, GameFeatureState::Open) => Some(1),
            _ => None,
        }
    }

    /// The state of a feature that a number in storage stands for.
    pub open spec fn state_of(self, code: i16) -> Option<GameFeatureState> {
        if exists|s: GameFeatureState| #[trigger] self.state_code(s) == Some(code) {
            Some(choose|s: GameFeatureState| #[trigger] self.state_code(s) == Some(code))
        } else {
            None
        }
    }

    /// Every feature, from the lowest number to the highest.
    pub open spec fn every() -> Seq<GameFeature> {
        seq![
            GameFeature::TeamFormation,
            GameFeature::DirectMessage,
            GameFeature::PuzzleTicket,
            GameFeature::Leaderboard,
            GameFeature::Currency,
        ]
    }

    pub fn all() -> (r: Vec<GameFeature>)
        ensures
            r@ == Self::every(),
    {
        let r = vec![
            GameFeature::TeamFormation,
            GameFeature::DirectMessage,
            GameFeature::PuzzleTicket,
            GameFeature::Leaderboard,
            GameFeature::Currency,
        ];
        assert(r@ =~= Self::every());
        r
    }

    pub fn value(self) -> (r: i16)
        ensures
            r == self.code_of(),
    {
        match self {
            GameFeature::TeamFormation => 0,
            GameFeature::DirectMessage => 1,
            GameFeature::PuzzleTicket => 2,
            GameFeature::Leaderboard => 3,
            GameFeature::Currency => 4,
        }
    }

    /// The state that a feature of a new game has.
    pub open spec fn initial_state(self) -> GameFeatureState {
        match self {
            GameFeature::Leaderboard => GameFeatureState::Live,
            GameFeature::Currency => GameFeatureState::Closed,
            _ => GameFeatureState::Open,
        }
    }

    pub fn default_state(self) -> (r: GameFeatureState)
        ensures
            r == self.initial_state(),
            self.state_code(r) is Some,
    {
        match self {
            GameFeature::TeamFormation => GameFeatureState::Open,
            GameFeature::DirectMessage => GameFeatureState::Open,
            GameFeature::PuzzleTicket => GameFeatureState::Open,
            GameFeature::Leaderboard => GameFeatureState::Live,
            GameFeature::Currency => GameFeatureState::Closed,
        }
    }

    /// The states that a feature can have, in the order of their numbers.
    pub open spec fn possible_states(self) -> Seq<GameFeatureState> {
        match self {
            GameFeature::TeamFormation => seq![GameFeatureState::Closed, GameFeatureState::Open],
            GameFeature::DirectMessage => seq![
                GameFeatureState::Closed,
                GameFeatureState::ExistingOnly,
                GameFeatureState::Open,
            ],
            GameFeature::PuzzleTicket => seq![
                GameFeatureState::Closed,
                GameFeatureState::ExistingOnly,
                GameFeatureState::Open,
            ],
            GameFeature::Leaderboard => seq![GameFeatureState::Live, GameFeatureState::Locked],
            GameFeature::Currency => seq![GameFeatureState::Closed, GameFeatureState::Open],
        }
    }

    pub fn states(self) -> (r: Vec<GameFeatureState>)
        ensures
            r@ == self.possible_states(),
    {
        let r = match self {
            GameFeature::TeamFormation => vec![GameFeatureState::Closed, GameFeatureState::Open],
            GameFeature::DirectMessage => vec![
                GameFeatureState::Closed,
                GameFeatureState::ExistingOnly,
                GameFeatureState::Open,
            ],
            GameFeature::PuzzleTicket => vec![
                GameFeatureState::Closed,
                GameFeatureState::ExistingOnly,
                GameFeatureState::Open,
            ],
            GameFeature::Leaderboard => vec![GameFeatureState::Live, GameFeatureState::Locked],
            GameFeature::Currency => vec![GameFeatureState::Closed, GameFeatureState::Open],
        };
        assert(r@ =~= self.possible_states());
        r
    }

    pub fn encode_state(self, state: GameFeatureState) -> (r: Option<i16>)
        ensures
            r == self.state_code(state),
    {
        match (self, state) {
            (GameFeature::TeamFormation, GameFeatureState::Closed) => Some(0),
            (GameFeature::TeamFormation, GameFeatureState::Open) => Some(1),
            (GameFeature::DirectMessage, GameFeatureState::Closed) => Some(0),
            (GameFeature::DirectMessage, GameFeatureState::ExistingOnly) => Some(1),
            (GameFeature::DirectMessage, GameFeatureState::Open) => Some(2),
            (GameFeature::PuzzleTicket, GameFeatureState::Closed) => Some(0),
            (GameFeature::PuzzleTicket, GameFeatureState::ExistingOnly) => Some(1),
            (GameFeature::PuzzleTicket, GameFeatureState::Open) => Some(2),
            (GameFeature::Leaderboard, GameFeatureState::Live) => Some(0),
            (GameFeature::Leaderboard, GameFeatureState::Locked) => Some(1),
            (GameFeature::Currency, GameFeatureState::Closed) => Some(0),
            (GameFeature::Currency, GameFeatureState::Open) => Some(1),
            _ => None,
        }
    }

    pub fn decode_state(self, value: i16) -> (r: Option<GameFeatureState>)
        ensures
            r == self.state_of(value),
    {
        let state = match (self, value) {
            (GameFeature::TeamFormation, 0) => GameFeatureState::Closed,
            (GameFeature::TeamFormation, 1) => GameFeatureState::Open,
            (GameFeature::DirectMessage, 0) => GameFeatureState::Closed,
            (GameFeature::DirectMessage, 1) => GameFeatureState::ExistingOnly,
            (GameFeature::DirectMessage, 2) => GameFeatureState::Open,
            (GameFeature::PuzzleTicket, 0) => GameFeatureState::Closed,
            (GameFeature::PuzzleTicket, 1) => GameFeatureState::ExistingOnly,
            (GameFeature::PuzzleTicket, 2) => GameFeatureState::Open,
            (GameFeature::Leaderboard, 0) => GameFeatureState::Live,
            (GameFeature::Leaderboard, 1) => GameFeatureState::Locked,
            (GameFeature::Currency, 0) => GameFeatureState::Closed,
            (GameFeature::Currency, 1) => GameFeatureState::Open,
            _ => {
                return None;
            },
        };
        assert(self.state_code(state) == Some(value));
        Some(state)
    }

    /// The feature that a number in storage stands for.
    pub open spec fn feature_of(code: i16) -> Option<GameFeature> {
        if exists|f: GameFeature| #[trigger] f.code_of() == code {
            Some(choose|f: GameFeature| #[trigger] f.code_of() == code)
        } else {
            None
        }
    }

    pub fn from_value(value: i16) -> (r: Option<GameFeature>)
        ensures
            r == Self::feature_of(value),
    {
        let all = Self::all();
        let mut i: usize = 0;
        while i < all.len()
            invariant
                i <= all@.len(),
                all@ == Self::every(),
                forall|k: int| 0 <= k < i ==> (#[trigger] all@[k]).code_of() != value,
            decreases all@.len() - i,
        {
            if all[i].value() == value {
                assert(all@[i as int].code_of() == value);
                return Some(all[i]);
            }
            i += 1;
        }
        proof {
            if exists|f: GameFeature| #[trigger] f.code_of() == value {
                let f = choose|f: GameFeature| #[trigger] f.code_of() == value;
                assert(all@[f.code_of() as int] == f);
            }
        }
        None
    }
}

/// A feature has exactly one number, and each of its states has exactly one.
pub proof fn feature_codes_read_back(f: GameFeature, s: GameFeatureState)
    ensures
        GameFeature::feature_of(f.code_of()) == Some(f),
        f.state_code(s) matches Some(code) ==> f.state_of(code) == Some(s),
        f.state_code(s) is Some <==> f.possible_states().contains(s),
{
    assert(f.code_of() == f.code_of());
    let states = f.possible_states();
    assert(states[0] == states[0] && states[1] == states[1]);
    if states.len() == 3 {
        assert(states[2] == states[2]);
    }
    if let Some(code) = f.state_code(s) {
        assert(f.state_code(s) == Some(code));
        assert(states[code as int] == s);
    }
}

/// A state that is asked for.
#[derive(Debug, Clone, Copy, PartialEq, Eq, Structural)]
pub struct FeatureChangeData {
    pub feature: GameFeature,
    pub state: GameFeatureState,
}

pub open spec fn are_valid_changes(changes: Seq<FeatureChangeData>) -> bool {
    &&& forall|i: int|
        0 <= i < changes.len() ==> (#[trigger] changes[i]).feature.state_code(changes[i].state)
            is Some
    &&& forall|i: int, j: int|
        0 <= i < j < changes.len() ==> (#[trigger] changes[i]).feature != (
        #[trigger] changes[j]).feature
}

/// Whether changes ask for states that the features have, and for one state of each feature.
pub fn valid_changes(changes: &[FeatureChangeData]) -> (r: bool)
    ensures
        r == are_valid_changes(changes@),
{
    let mut i: usize = 0;
    while i < changes.len()
        invariant
            i <= changes@.len(),
            forall|k: int|
                0 <= k < i ==> (#[trigger] changes@[k]).feature.state_code(changes@[k].state)
                    is Some,
            forall|k: int, l: int|
                0 <= k < l < i ==> (#[trigger] changes@[k]).feature != (
                #[trigger] changes@[l]).feature,
        decreases changes@.len() - i,
    {
        let change = &changes[i];
        if change.feature.encode_state(change.state).is_none() {
            return false;
        }
        let mut j: usize = 0;
        while j < i
            invariant
                j <= i < changes@.len(),
                change == changes@[i as int],
                forall|k: int| 0 <= k < j ==> (#[trigger] changes@[k]).feature != change.feature,
            decreases i - j,
        {
            if changes[j].feature == change.feature {
                assert(changes@[j as int].feature == changes@[i as int].feature);
                return false;
            }
            j += 1;
        }
        i += 1;
    }
    true
}

/// A feature of a game, and the change planned next, as they are stored.
#[derive(Debug)]
pub struct FeatureRow {
    pub feature_type: i16,
    pub state: i16,
    pub source_phase_id: Option<i32>,
    pub utime_at: Timestamp,
    pub phase_id: Option<i32>,
    pub phase_title: Option<String>,
    pub target_state: Option<i16>,
    pub release_at: Option<Timestamp>,
}

#[derive(Debug)]
pub struct AdminFeatureNextChange {
    pub phase_id: i32,
    pub phase_title: String,
    pub state: GameFeatureState,
    pub release_at: Timestamp,
}

#[derive(Debug)]
pub struct AdminFeatureData {
    pub feature: GameFeature,
    pub state: GameFeatureState,
    pub states: Vec<GameFeatureState>,
    pub source_phase_id: Option<i32>,
    pub updated_at: Timestamp,
    pub next_change: Option<AdminFeatureNextChange>,
}

/// Whether a row has a planned change.
pub open spec fn has_plan(row: FeatureRow) -> bool {
    row.phase_id is Some && row.phase_title is Some && row.target_state is Some && row.release_at
        is Some
}

/// What is wrong with a row, if anything.
pub open spec fn row_fault(row: FeatureRow) -> Option<Seq<char>> {
    match GameFeature::feature_of(row.feature_type) {
        None => Some("Invalid game feature"@),
        Some(f) => if f.state_of(row.state) is None {
            Some("Invalid game feature state"@)
        } else if has_plan(row) && f.state_of(row.target_state->0) is None {
            Some("Invalid planned feature state"@)
        } else {
            None
        },
    }
}

/// Whether a feature is shown as its row says.
pub open spec fn shows_row(d: AdminFeatureData, row: FeatureRow) -> bool {
    &&& GameFeature::feature_of(row.feature_type) == Some(d.feature)
    &&& d.feature.state_of(row.state) == Some(d.state)
    &&& d.states@ == d.feature.possible_states()
    &&& d.source_phase_id == row.source_phase_id
    &&& d.updated_at == row.utime_at
    &&& match d.next_change {
        None => !has_plan(row),
        Some(n) => has_plan(row) && n.phase_id == row.phase_id->0 && n.phase_title
            == row.phase_title->0 && n.release_at == row.release_at->0 && d.feature.state_of(
            row.target_state->0,
        ) == Some(n.state),
    }
}

fn admin_feature(row: &FeatureRow) -> (r: Result<AdminFeatureData, RbInternalError>)
    ensures
        match r {
            Ok(d) => row_fault(*row) is None && shows_row(d, *row),
            Err(e) => row_fault(*row) == Some(e.text()),
        },
{
    let feature = match GameFeature::from_value(row.feature_type) {
        None => {
            return Err(fault("Invalid game feature"));
        },
        Some(f) => f,
    };
    let state = match feature.decode_state(row.state) {
        None => {
            return Err(fault("Invalid game feature state"));
        },
        Some(s) => s,
    };
    let next_change = match (row.phase_id, &row.phase_title, row.target_state, row.release_at) {
        (Some(phase_id), Some(phase_title), Some(target_state), Some(release_at)) => {
            match feature.decode_state(target_state) {
                None => {
                    return Err(fault("Invalid planned feature state"));
                },
                Some(state) => Some(
                    AdminFeatureNextChange {
                        phase_id,
                        phase_title: phase_title.clone(),
                        state,
                        release_at,
                    },
                ),
            }
        },
        _ => None,
    };
    Ok(
        AdminFeatureData {
            feature,
            state,
            states: feature.states(),
            source_phase_id: row.source_phase_id,
            updated_at: row.utime_at,
            next_change,
        },
    )
}

/// The features of a game as an administrator sees them. The first row that makes no sense is an
/// error.
pub fn list_admin(rows: &Vec<FeatureRow>) -> (r: Result<Vec<AdminFeatureData>, RbInternalError>)
    ensures
        match r {
            Ok(v) => v@.len() == rows@.len() && forall|i: int|
                0 <= i < v@.len() ==> row_fault(rows@[i]) is None && shows_row(
                    #[trigger] v@[i],
                    rows@[i],
                ),
            Err(e) => exists|i: int|
                {
                    &&& 0 <= i < rows@.len()
                    &&& row_fault(#[trigger] rows@[i]) == Some(e.text())
                    &&& forall|k: int| 0 <= k < i ==> row_fault(#[trigger] rows@[k]) is None
                },
        },
{
    let mut out: Vec<AdminFeatureData> = Vec::new();
    let mut i: usize = 0;
    while i < rows.len()
        invariant
            i <= rows@.len(),
            out@.len() == i,
            forall|k: int| 0 <= k < i ==> row_fault(#[trigger] rows@[k]) is None,
            forall|k: int| 0 <= k < i ==> shows_row(#[trigger] out@[k], rows@[k]),
        decreases rows@.len() - i,
    {
        match admin_feature(&rows[i]) {
            Err(e) => {
                assert(row_fault(rows@[i as int]) == Some(e.text()));
                return Err(e);
            },
            Ok(d) => {
                out.push(d);
            },
        }
        i += 1;
    }
    Ok(out)
}

/// The state that the rows of a game give a feature: that of the feature's last row.
pub open spec fn state_in_rows(rows: Seq<(i16, i16)>, f: GameFeature) -> Option<GameFeatureState>
    decreases rows.len(),
{
    if rows.len() == 0 {
        None
    } else if rows.last().0 == f.code_of() {
        f.state_of(rows.last().1)
    } else {
        state_in_rows(rows.drop_last(), f)
    }
}

pub open spec fn pair_fault(row: (i16, i16)) -> Option<Seq<char>> {
    match GameFeature::feature_of(row.0) {
        None => Some("Invalid game feature"@),
        Some(f) => if f.state_of(row.1) is None {
            Some("Invalid game feature state"@)
        } else {
            None
        },
    }
}

/// Whether features stand in the order of their numbers, each once.
pub open spec fn in_feature_order(v: Seq<(GameFeature, GameFeatureState)>) -> bool {
    forall|i: int, j: int|
        0 <= i < j < v.len() ==> (#[trigger] v[i]).0.code_of() < (#[trigger] v[j]).0.code_of()
}

/// The state that a list gives a feature.
pub open spec fn listed_state(
    v: Seq<(GameFeature, GameFeatureState)>,
    f: GameFeature,
) -> Option<GameFeatureState>
    decreases v.len(),
{
    if v.len() == 0 {
        None
    } else if v.last().0 == f {
        Some(v.last().1)
    } else {
        listed_state(v.drop_last(), f)
    }
}

proof fn lemma_listed(v: Seq<(GameFeature, GameFeatureState)>, f: GameFeature)
    requires
        in_feature_order(v),
    ensures
        forall|i: int|
            0 <= i < v.len() && (#[trigger] v[i]).0 == f ==> listed_state(v, f) == Some(v[i].1),
        (forall|i: int| 0 <= i < v.len() ==> (#[trigger] v[i]).0 != f) ==> listed_state(v, f)
            is None,
    decreases v.len(),
{
    if v.len() > 0 {
        let init = v.drop_last();
        lemma_listed(init, f);
        assert forall|i: int| 0 <= i < v.len() && (#[trigger] v[i]).0 == f implies listed_state(v, f)
            == Some(v[i].1) by {
            if i < init.len() {
                assert(init[i] == v[i]);
                assert(v[i].0.code_of() < v[v.len() - 1].0.code_of());
            }
        }
        if forall|i: int| 0 <= i < v.len() ==> (#[trigger] v[i]).0 != f {
            assert(v[v.len() - 1].0 != f);
            assert forall|i: int| 0 <= i < init.len() implies (#[trigger] init[i]).0 != f by {
                assert(v[i].0 != f);
            }
        }
    }
}

/// Puts a feature's state into a list, in place of the one that it may hold.
fn put_state(
    list: &mut Vec<(GameFeature, GameFeatureState)>,
    feature: GameFeature,
    state: GameFeatureState,
)
    requires
        in_feature_order(old(list)@),
    ensures
        in_feature_order(final(list)@),
        forall|f: GameFeature| #[trigger]
            listed_state(final(list)@, f) == (if f == feature {
                Some(state)
            } else {
                listed_state(old(list)@, f)
            }),
{
    let ghost before = list@;
    let mut i: usize = 0;
    while i < list.len() && list[i].0.value() < feature.value()
        invariant
            i <= list@.len(),
            list@ == before,
            forall|k: int| 0 <= k < i ==> (#[trigger] list@[k]).0.code_of() < feature.code_of(),
        decreases list@.len() - i,
    {
        i += 1;
    }
    if i < list.len() && list[i].0 == feature {
        list.set(i, (feature, state));
        assert(list@ == before.update(i as int, (feature, state)));
    } else {
        proof {
            if i < before.len() {
                let g = before[i as int].0;
                assert(g.code_of() >= feature.code_of() && g != feature);
                feature_codes_read_back(g, state);
                feature_codes_read_back(feature, state);
            }
        }
        list.insert(i, (feature, state));
        assert(list@ == before.insert(i as int, (feature, state)));
        assert forall|k: int, l: int| 0 <= k < l < list@.len() implies (
        #[trigger] list@[k]).0.code_of() < (#[trigger] list@[l]).0.code_of() by {
            let k1 = if k < i {
                k
            } else {
                k - 1
            };
            let l1 = if l < i {
                l
            } else {
                l - 1
            };
            if k != i {
                assert(list@[k] == before[k1]);
            }
            if l != i {
                assert(list@[l] == before[l1]);
            }
            if k == i && l1 > i {
                assert(before[i as int].0.code_of() < before[l1].0.code_of());
            }
        }
    }
    proof {
        let after = list@;
        assert forall|f: GameFeature| #[trigger]
            listed_state(after, f) == (if f == feature {
                Some(state)
            } else {
                listed_state(before, f)
            }) by {
            lemma_listed(before, f);
            lemma_listed(after, f);
            if f == feature {
                assert(after[i as int].0 == f);
            } else if exists|k: int| 0 <= k < before.len() && (#[trigger] before[k]).0 == f {
                let k = choose|k: int| 0 <= k < before.len() && (#[trigger] before[k]).0 == f;
                if after.len() == before.len() {
                    assert(after[k] == before[k]);
                } else {
                    let k1 = if k < i {
                        k
                    } else {
                        k + 1
                    };
                    assert(after[k1] == before[k]);
                }
            } else {
                assert forall|k: int| 0 <= k < after.len() implies (#[trigger] after[k]).0 != f by {
                    if k != i {
                        let k1 = if after.len() == before.len() || k < i {
                            k
                        } else {
                            k - 1
                        };
                        assert(after[k] == before[k1]);
                    }
                }
            }
        }
    }
}

/// The features of a game as a player sees them: each feature once, in the order of their numbers.
pub fn player_states(rows: &Vec<(i16, i16)>) -> (r: Result<
    Vec<(GameFeature, GameFeatureState)>,
    RbInternalError,
>)
    ensures
        match r {
            Ok(v) => {
                &&& in_feature_order(v@)
                &&& forall|i: int| 0 <= i < rows@.len() ==> pair_fault(#[trigger] rows@[i]) is None
                &&& forall|f: GameFeature| #[trigger]
                    listed_state(v@, f) == state_in_rows(rows@, f)
            },
            Err(e) => exists|i: int|
                {
                    &&& 0 <= i < rows@.len()
                    &&& pair_fault(#[trigger] rows@[i]) == Some(e.text())
                    &&& forall|k: int| 0 <= k < i ==> pair_fault(#[trigger] rows@[k]) is None
                },
        },
{
    let mut list: Vec<(GameFeature, GameFeatureState)> = Vec::new();
    let mut i: usize = 0;
    while i < rows.len()
        invariant
            i <= rows@.len(),
            in_feature_order(list@),
            forall|k: int| 0 <= k < i ==> pair_fault(#[trigger] rows@[k]) is None,
            forall|f: GameFeature| #[trigger]
                listed_state(list@, f) == state_in_rows(rows@.take(i as int), f),
        decreases rows@.len() - i,
    {
        let (code, state) = rows[i];
        let ghost row = rows@[i as int];
        let feature = match GameFeature::from_value(code) {
            None => {
                assert(pair_fault(rows@[i as int]) == Some("Invalid game feature"@));
                return Err(fault("Invalid game feature"));
            },
            Some(f) => f,
        };
        let state = match feature.decode_state(state) {
            None => {
                assert(pair_fault(rows@[i as int]) == Some("Invalid game feature state"@));
                return Err(fault("Invalid game feature state"));
            },
            Some(s) => s,
        };
        put_state(&mut list, feature, state);
        proof {
            let next = rows@.take(i + 1);
            assert(next.drop_last() == rows@.take(i as int));
            assert(next.last() == row);
            assert(feature.code_of() == code);
            assert forall|f: GameFeature| #[trigger]
                listed_state(list@, f) == state_in_rows(next, f) by {
                if f != feature {
                    feature_codes_read_back(f, state);
                    feature_codes_read_back(feature, state);
                }
            }
        }
        i += 1;
    }
    assert(rows@.take(i as int) == rows@);
    Ok(list)
}

/// What becomes of the leaderboard when its state is set.
#[derive(Debug, Clone, Copy, PartialEq, Eq, Structural)]
pub enum LeaderboardEffect {
    Lock,
    Unlock,
}

/// What becomes of growing balances when the currency's state changes.
#[derive(Debug, Clone, Copy, PartialEq, Eq, Structural)]
pub enum GrowthEffect {
    Settle,
    Enable,
}

/// How a state is set.
#[derive(Debug, Clone, Copy, PartialEq, Eq, Structural)]
pub enum StatePlan {
    /// The phase has set the state before.
    Skip,
    Apply {
        target: i16,
        leaderboard: Option<LeaderboardEffect>,
        growth: Option<GrowthEffect>,
        changed: bool,
    },
}

pub open spec fn leaderboard_effect(change: FeatureChangeData) -> Option<LeaderboardEffect> {
    if change.feature is Leaderboard {
        if change.state is Locked {
            Some(LeaderboardEffect::Lock)
        } else {
            Some(LeaderboardEffect::Unlock)
        }
    } else {
        None
    }
}

pub open spec fn growth_effect(change: FeatureChangeData, old: i16, target: i16) -> Option<
    GrowthEffect,
> {
    if change.feature is Currency && old != target {
        if change.state is Closed {
            Some(GrowthEffect::Settle)
        } else {
            Some(GrowthEffect::Enable)
        }
    } else {
        None
    }
}

/// Plans how a state is set, given whether the phase that asks for it has set it before, and the
/// number of the state that stands.
pub fn plan_state(change: &FeatureChangeData, applied: bool, old: i16) -> (r: Result<
    StatePlan,
    RbInternalError,
>)
    ensures
        match change.feature.state_code(change.state) {
            None => r matches Err(e) && e.text() == "Invalid game feature state"@,
            Some(target) => r matches Ok(plan) && plan == (if applied {
                StatePlan::Skip
            } else {
                StatePlan::Apply {
                    target,
                    leaderboard: leaderboard_effect(*change),
                    growth: growth_effect(*change, old, target),
                    changed: old != target || change.feature is Leaderboard,
                }
            }),
        },
{
    let target: i16 = match change.feature.encode_state(change.state) {
        None => {
            return Err(fault("Invalid game feature state"));
        },
        Some(target) => target,
    };
    if applied {
        return Ok(StatePlan::Skip);
    }
    let is_leaderboard = matches!(change.feature, GameFeature::Leaderboard);
    let leaderboard = if is_leaderboard {
        match change.state {
            GameFeatureState::Locked => Some(LeaderboardEffect::Lock),
            GameFeatureState::Live => Some(LeaderboardEffect::Unlock),
            _ => {
                return Err(fault("Invalid leaderboard state"));
            },
        }
    } else {
        None
    };
    let growth = if old != target && matches!(change.feature, GameFeature::Currency) {
        match change.state {
            GameFeatureState::Closed => Some(GrowthEffect::Settle),
            GameFeatureState::Open => Some(GrowthEffect::Enable),
            _ => {
                return Err(fault("Invalid currency state"));
            },
        }
    } else {
        None
    };
    Ok(StatePlan::Apply { target, leaderboard, growth, changed: old != target || is_leaderboard })
}

/// The changes that a phase asks for, as they are stored.
pub fn phase_changes(rows: &Vec<(i16, i16)>) -> (r: Result<Vec<FeatureChangeData>, RbInternalError>)
    ensures
        match r {
            Ok(v) => v@.len() == rows@.len() && forall|i: int|
                #![trigger v@[i]]
                0 <= i < v@.len() ==> GameFeature::feature_of(rows@[i].0) == Some(v@[i].feature)
                    && v@[i].feature.state_of(rows@[i].1) == Some(v@[i].state),
            Err(e) => exists|i: int|
                {
                    &&& 0 <= i < rows@.len()
                    &&& pair_fault(#[trigger] rows@[i]) == Some(e.text())
                    &&& forall|k: int| 0 <= k < i ==> pair_fault(#[trigger] rows@[k]) is None
                },
        },
{
    let mut out: Vec<FeatureChangeData> = Vec::new();
    let mut i: usize = 0;
    while i < rows.len()
        invariant
            i <= rows@.len(),
            out@.len() == i,
            forall|k: int| 0 <= k < i ==> pair_fault(#[trigger] rows@[k]) is None,
            forall|k: int|
                #![trigger out@[k]]
                0 <= k < i ==> GameFeature::feature_of(rows@[k].0) == Some(out@[k].feature)
                    && out@[k].feature.state_of(rows@[k].1) == Some(out@[k].state),
        decreases rows@.len() - i,
    {
        let (code, state) = rows[i];
        let ghost row = rows@[i as int];
        let feature = match GameFeature::from_value(code) {
            None => {
                assert(pair_fault(rows@[i as int]) == Some("Invalid game feature"@));
                return Err(fault("Invalid game feature"));
            },
            Some(f) => f,
        };
        let state = match feature.decode_state(state) {
            None => {
                assert(pair_fault(rows@[i as int]) == Some("Invalid game feature state"@));
                return Err(fault("Invalid game feature state"));
            },
            Some(s) => s,
        };
        out.push(FeatureChangeData { feature, state });
        i += 1;
    }
    Ok(out)
}

/// Whether a phase has touched the leaderboard, given which of its changes took effect.
pub fn leaderboard_changed(changes: &Vec<FeatureChangeData>, changed: &Vec<bool>) -> (r: bool)
    requires
        changes@.len() == changed@.len(),
    ensures
        r == exists|i: int|
            0 <= i < changes@.len() && changed@[i] && (#[trigger] changes@[i]).feature
                is Leaderboard,
{
    let mut i: usize = 0;
    while i < changes.len()
        invariant
            i <= changes@.len(),
            changes@.len() == changed@.len(),
            forall|k: int|
                0 <= k < i ==> !(changed@[k] && (#[trigger] changes@[k]).feature is Leaderboard),
        decreases changes@.len() - i,
    {
        if changed[i] && matches!(changes[i].feature, GameFeature::Leaderboard) {
            assert(changes@[i as int].feature is Leaderboard);
            return true;
        }
        i += 1;
    }
    false
}

/// A state that is set a second time takes no effect, except on the leaderboard.
pub proof fn setting_a_state_again_changes_nothing(change: FeatureChangeData, target: i16)
    requires
        change.feature.state_code(change.state) == Some(target),
        !(change.feature is Leaderboard),
    ensures
        leaderboard_effect(change) is None,
        growth_effect(change, target, target) is None,
{
}

/// Features and states are told apart by the numbers that they are stored as; a number that no feature
/// has stands for none.
pub proof fn features_are_told_apart(f: GameFeature, g: GameFeature, code: i16)
    ensures
        f.code_of() == g.code_of() ==> f == g,
        0 <= f.code_of() <= 4,
        GameFeature::feature_of(code) is Some <==> 0 <= code <= 4,
        GameFeature::feature_of(code) matches Some(known) ==> known.code_of() == code,
{
    assert(GameFeature::TeamFormation.code_of() == 0);
    assert(GameFeature::DirectMessage.code_of() == 1);
    assert(GameFeature::PuzzleTicket.code_of() == 2);
    assert(GameFeature::Leaderboard.code_of() == 3);
    assert(GameFeature::Currency.code_of() == 4);
}

/// The states of a feature are numbered from zero; which states a feature has: leaderboards are live or
/// locked, all others can be closed and open, and messages and tickets can be kept to what is there.
pub proof fn features_have_their_states(f: GameFeature, s: GameFeatureState)
    ensures
        f.state_code(s) is Some <==> ({
            ||| f == GameFeature::Leaderboard && (s == GameFeatureState::Live || s
                == GameFeatureState::Locked)
            ||| f != GameFeature::Leaderboard && (s == GameFeatureState::Closed || s
                == GameFeatureState::Open)
            ||| (f == GameFeature::DirectMessage || f == GameFeature::PuzzleTicket) && s
                == GameFeatureState::ExistingOnly
        }),
        f.state_code(s) matches Some(code) ==> 0 <= code < f.possible_states().len()
            && f.possible_states()[code as int] == s,
        f.state_code(f.initial_state()) is Some,
        f == GameFeature::Leaderboard ==> f.initial_state() == GameFeatureState::Live,
        f == GameFeature::Currency ==> f.initial_state() == GameFeatureState::Closed,
        f != GameFeature::Leaderboard && f != GameFeature::Currency ==> f.initial_state()
            == GameFeatureState::Open,
        GameFeature::every().contains(f),
        GameFeature::every().len() == 5,
        GameFeature::every()[f.code_of() as int] == f,
{
    assert(GameFeature::every()[f.code_of() as int] == f);
}

/// Changes are valid exactly where each feature has the state that it is to take and none is named
/// twice.
pub proof fn valid_changes_name_features_once(changes: Seq<FeatureChangeData>, i: int, j: int)
    ensures
        changes.len() == 0 ==> are_valid_changes(changes),
        0 <= i < j < changes.len() && changes[i].feature == changes[j].feature
            ==> !are_valid_changes(changes),
        0 <= i < changes.len() && changes[i].feature.state_code(changes[i].state) is None
            ==> !are_valid_changes(changes),
        changes.len() == 1 && changes[0].feature.state_code(changes[0].state) is Some
            ==> are_valid_changes(changes),
{
}

/// A row is shown as it is stored, with all states that its feature can take, and with what is planned
/// for it where all of that is stored.
pub proof fn features_are_shown_as_stored(d: AdminFeatureData, row: FeatureRow)
    requires
        shows_row(d, row),
    ensures
        d.feature.code_of() == row.feature_type,
        d.feature.state_code(d.state) == Some(row.state),
        d.states@ == d.feature.possible_states(),
        d.source_phase_id == row.source_phase_id,
        d.updated_at == row.utime_at,
        d.next_change is Some <==> row.phase_id is Some && row.phase_title is Some && row.target_state
            is Some && row.release_at is Some,
        d.next_change matches Some(next) ==> row.phase_id == Some(next.phase_id) && row.phase_title
            == Some(next.phase_title) && row.release_at == Some(next.release_at)
            && d.feature.state_code(next.state) == row.target_state,
{
}

/// A row is at fault exactly where its feature, its state or the state that is planned is not known,
/// and the first of these is told.
pub proof fn unknown_features_are_faults(row: FeatureRow, pair: (i16, i16))
    ensures
        row_fault(row) is None <==> GameFeature::feature_of(row.feature_type) is Some
            && GameFeature::feature_of(row.feature_type)->0.state_of(row.state) is Some && (
        row.phase_id is Some && row.phase_title is Some && row.target_state is Some && row.release_at
            is Some ==> GameFeature::feature_of(row.feature_type)->0.state_of(row.target_state->0)
            is Some),
        GameFeature::feature_of(row.feature_type) is None ==> row_fault(row) == Some(
            "Invalid game feature"@,
        ),
        GameFeature::feature_of(row.feature_type) is Some && GameFeature::feature_of(
            row.feature_type,
        )->0.state_of(row.state) is None ==> row_fault(row) == Some("Invalid game feature state"@),
        pair_fault(pair) is None <==> GameFeature::feature_of(pair.0) is Some
            && GameFeature::feature_of(pair.0)->0.state_of(pair.1) is Some,
        GameFeature::feature_of(pair.0) is None ==> pair_fault(pair) == Some(
            "Invalid game feature"@,
        ),
        GameFeature::feature_of(pair.0) is Some && GameFeature::feature_of(pair.0)->0.state_of(
            pair.1,
        ) is None ==> pair_fault(pair) == Some("Invalid game feature state"@),
{
}

/// The state of a feature is that of its last row, and none where it has no row.
pub proof fn last_rows_give_the_state(
    rows: Seq<(i16, i16)>,
    row: (i16, i16),
    listed: Seq<(GameFeature, GameFeatureState)>,
    pair: (GameFeature, GameFeatureState),
    f: GameFeature,
)
    ensures
        state_in_rows(Seq::empty(), f) is None,
        row.0 == f.code_of() ==> state_in_rows(rows.push(row), f) == f.state_of(row.1),
        row.0 != f.code_of() ==> state_in_rows(rows.push(row), f) == state_in_rows(rows, f),
        listed_state(Seq::empty(), f) is None,
        pair.0 == f ==> listed_state(listed.push(pair), f) == Some(pair.1),
        pair.0 != f ==> listed_state(listed.push(pair), f) == listed_state(listed, f),
{
    assert(rows.push(row).drop_last() =~= rows);
    assert(listed.push(pair).drop_last() =~= listed);
}

/// Only leaderboards are locked and unlocked, and only a change of the currencies' state settles or
/// starts their growth.
pub proof fn states_have_effects(change: FeatureChangeData, old_state: i16, target: i16)
    ensures
        leaderboard_effect(change) == Some(LeaderboardEffect::Lock) <==> change.feature
            == GameFeature::Leaderboard && change.state == GameFeatureState::Locked,
        leaderboard_effect(change) == Some(LeaderboardEffect::Unlock) <==> change.feature
            == GameFeature::Leaderboard && change.state != GameFeatureState::Locked,
        growth_effect(change, old_state, target) == Some(GrowthEffect::Settle) <==> change.feature
            == GameFeature::Currency && change.state == GameFeatureState::Closed && old_state
            != target,
        growth_effect(change, old_state, target) == Some(GrowthEffect::Enable) <==> change.feature
            == GameFeature::Currency && change.state != GameFeatureState::Closed && old_state
            != target,
{
}

/// Features in order are named once, by rising numbers; each has a word of its own.
pub proof fn features_in_order_are_named_once(
    v: Seq<(GameFeature, GameFeatureState)>,
    i: int,
    j: int,
    f: GameFeature,
    g: GameFeature,
)
    ensures
        in_feature_order(v) && 0 <= i < j < v.len() ==> v[i].0 != v[j].0 && v[i].0.code_of()
            < v[j].0.code_of(),
        f.word_of() == g.word_of() ==> f == g,
{
    reveal_strlit("team_formation");
    reveal_strlit("direct_message");
    reveal_strlit("puzzle_ticket");
    reveal_strlit("leaderboard");
    reveal_strlit("currency");
    assert("team_formation"@.len() == 14 && "direct_message"@.len() == 14 && "puzzle_ticket"@.len()
        == 13 && "leaderboard"@.len() == 11 && "currency"@.len() == 8);
    assert("team_formation"@[0] == 't' && "direct_message"@[0] == 'd');
    if in_feature_order(v) && 0 <= i < j < v.len() {
        assert(v[i].0.code_of() < v[j].0.code_of());
    }
}

} // verus!
