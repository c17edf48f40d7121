//! The states and kinds that a game's records hold as numbers.
use vstd::prelude::*;
use vstd::std_specs::convert::FromSpecImpl;
use vstd::string::*;

use crate::json;
use crate::json::{Json, JsonNumber, J, JNumber};
use crate::text::same;

verus! {

/// Where a team stands in a game.
#[derive(Debug, Clone, Copy, PartialEq, Eq, Structural)]
pub enum RbTeamState {
    Banned,
    Open,
    InGame,
    Finished,
    /// Any other code.
    Invalid,
}

impl RbTeamState {
    /// The number that stands for a value in storage.
    pub open spec fn code_of(self) -> i16 {
        match self {
            RbTeamState::Banned => -1 as i16,
            RbTeamState::Open => 0,
            RbTeamState::InGame => 1,
            RbTeamState::Finished => 2,
            RbTeamState::Invalid => 3,
        }
    }

    /// The value that a number in storage stands for.
    pub open spec fn from_code(code: i16) -> Self {
        if code == -1 {
            RbTeamState::Banned
        } else if code == 0 {
            RbTeamState::Open
        } else if code == 1 {
            RbTeamState::InGame
        } else if code == 2 {
            RbTeamState::Finished
        } else {
            RbTeamState::Invalid
        }
    }

    /// A value is the one that its own number stands for.
    pub proof fn codes_read_back(self)
        ensures
            Self::from_code(self.code_of()) == self,
    {
    }
}

impl From<i16> for RbTeamState {
    fn from(code: i16) -> (r: Self) {
        if code == -1 {
            RbTeamState::Banned
        } else if code == 0 {
            RbTeamState::Open
        } else if code == 1 {
            RbTeamState::InGame
        } else if code == 2 {
            RbTeamState::Finished
        } else {
            RbTeamState::Invalid
        }
    }
}

impl FromSpecImpl<i16> for RbTeamState {
    open spec fn obeys_from_spec() -> bool {
        true
    }

    open spec fn from_spec(code: i16) -> Self {
        RbTeamState::from_code(code)
    }
}

impl From<RbTeamState> for i16 {
    fn from(value: RbTeamState) -> (r: i16) {
        match value {
            RbTeamState::Banned => -1,
            RbTeamState::Open => 0,
            RbTeamState::InGame => 1,
            RbTeamState::Finished => 2,
            RbTeamState::Invalid => 3,
        }
    }
}

impl FromSpecImpl<RbTeamState> for i16 {
    open spec fn obeys_from_spec() -> bool {
        true
    }

    open spec fn from_spec(value: RbTeamState) -> i16 {
        value.code_of()
    }
}

/// What a puzzle is.
#[derive(Debug, Clone, Copy, PartialEq, Eq, Structural)]
pub enum RbPuzzleType {
    Normal,
    Story,
    /// Any other code.
    Invalid,
}

impl RbPuzzleType {
    /// The number that stands for a value in storage.
    pub open spec fn code_of(self) -> i16 {
        match self {
            RbPuzzleType::Normal => 0,
            RbPuzzleType::Story => 1,
            RbPuzzleType::Invalid => 2,
        }
    }

    /// The value that a number in storage stands for.
    pub open spec fn from_code(code: i16) -> Self {
        if code == 0 {
            RbPuzzleType::Normal
        } else if code == 1 {
            RbPuzzleType::Story
        } else {
            RbPuzzleType::Invalid
        }
    }

    /// A value is the one that its own number stands for.
    pub proof fn codes_read_back(self)
        ensures
            Self::from_code(self.code_of()) == self,
    {
    }
}

impl From<i16> for RbPuzzleType {
    fn from(code: i16) -> (r: Self) {
        if code == 0 {
            RbPuzzleType::Normal
        } else if code == 1 {
            RbPuzzleType::Story
        } else {
            RbPuzzleType::Invalid
        }
    }
}

impl FromSpecImpl<i16> for RbPuzzleType {
    open spec fn obeys_from_spec() -> bool {
        true
    }

    open spec fn from_spec(code: i16) -> Self {
        RbPuzzleType::from_code(code)
    }
}

impl From<RbPuzzleType> for i16 {
    fn from(value: RbPuzzleType) -> (r: i16) {
        match value {
            RbPuzzleType::Normal => 0,
            RbPuzzleType::Story => 1,
            RbPuzzleType::Invalid => 2,
        }
    }
}

impl FromSpecImpl<RbPuzzleType> for i16 {
    open spec fn obeys_from_spec() -> bool {
        true
    }

    open spec fn from_spec(value: RbPuzzleType) -> i16 {
        value.code_of()
    }
}

/// How a text is rendered.
#[derive(Debug, Clone, Copy, PartialEq, Eq, Structural)]
pub enum RbContentType {
    Markdown,
    Html,
    /// mark this content should be sanitized by frontend
    UnsafeMarkdown,
    /// Any other code.
    Invalid,
}

impl RbContentType {
    /// The number that stands for a value in storage.
    pub open spec fn code_of(self) -> i16 {
        match self {
            RbContentType::Markdown => 0,
            RbContentType::Html => 1,
            RbContentType::UnsafeMarkdown => 2,
            RbContentType::Invalid => 3,
        }
    }

    /// The value that a number in storage stands for.
    pub open spec fn from_code(code: i16) -> Self {
        if code == 0 {
            RbContentType::Markdown
        } else if code == 1 {
            RbContentType::Html
        } else if code == 2 {
            RbContentType::UnsafeMarkdown
        } else {
            RbContentType::Invalid
        }
    }

    /// A value is the one that its own number stands for.
    pub proof fn codes_read_back(self)
        ensures
            Self::from_code(self.code_of()) == self,
    {
    }
}

impl From<i16> for RbContentType {
    fn from(code: i16) -> (r: Self) {
        if code == 0 {
            RbContentType::Markdown
        } else if code == 1 {
            RbContentType::Html
        } else if code == 2 {
            RbContentType::UnsafeMarkdown
        } else {
            RbContentType::Invalid
        }
    }
}

impl FromSpecImpl<i16> for RbContentType {
    open spec fn obeys_from_spec() -> bool {
        true
    }

    open spec fn from_spec(code: i16) -> Self {
        RbContentType::from_code(code)
    }
}

impl From<RbContentType> for i16 {
    fn from(value: RbContentType) -> (r: i16) {
        match value {
            RbContentType::Markdown => 0,
            RbContentType::Html => 1,
            RbContentType::UnsafeMarkdown => 2,
            RbContentType::Invalid => 3,
        }
    }
}

impl FromSpecImpl<RbContentType> for i16 {
    open spec fn obeys_from_spec() -> bool {
        true
    }

    open spec fn from_spec(value: RbContentType) -> i16 {
        value.code_of()
    }
}

impl RbContentType {
    pub open spec fn trusted(self) -> bool {
        self is Markdown || self is Html
    }

    /// Whether a text is rendered without being sanitized.
    pub fn is_trusted(&self) -> (r: bool)
        ensures
            r == self.trusted(),
    {
        matches!(self, Self::Markdown | Self::Html)
    }
}

/// Where a team stands with a puzzle.
#[derive(Debug, Clone, Copy, PartialEq, Eq, Structural)]
pub enum RbTeamPuzzleState {
    Locked,
    Unlocked,
    Solved,
    /// Any other code.
    Invalid,
}

impl RbTeamPuzzleState {
    /// The number that stands for a value in storage.
    pub open spec fn code_of(self) -> i16 {
        match self {
            RbTeamPuzzleState::Locked => -1 as i16,
            RbTeamPuzzleState::Unlocked => 0,
            RbTeamPuzzleState::Solved => 1,
            RbTeamPuzzleState::Invalid => 2,
        }
    }

    /// The value that a number in storage stands for.
    pub open spec fn from_code(code: i16) -> Self {
        if code == -1 {
            RbTeamPuzzleState::Locked
        } else if code == 0 {
            RbTeamPuzzleState::Unlocked
        } else if code == 1 {
            RbTeamPuzzleState::Solved
        } else {
            RbTeamPuzzleState::Invalid
        }
    }

    /// A value is the one that its own number stands for.
    pub proof fn codes_read_back(self)
        ensures
            Self::from_code(self.code_of()) == self,
    {
    }
}

impl From<i16> for RbTeamPuzzleState {
    fn from(code: i16) -> (r: Self) {
        if code == -1 {
            RbTeamPuzzleState::Locked
        } else if code == 0 {
            RbTeamPuzzleState::Unlocked
        } else if code == 1 {
            RbTeamPuzzleState::Solved
        } else {
            RbTeamPuzzleState::Invalid
        }
    }
}

impl FromSpecImpl<i16> for RbTeamPuzzleState {
    open spec fn obeys_from_spec() -> bool {
        true
    }

    open spec fn from_spec(code: i16) -> Self {
        RbTeamPuzzleState::from_code(code)
    }
}

impl From<RbTeamPuzzleState> for i16 {
    fn from(value: RbTeamPuzzleState) -> (r: i16) {
        match value {
            RbTeamPuzzleState::Locked => -1,
            RbTeamPuzzleState::Unlocked => 0,
            RbTeamPuzzleState::Solved => 1,
            RbTeamPuzzleState::Invalid => 2,
        }
    }
}

impl FromSpecImpl<RbTeamPuzzleState> for i16 {
    open spec fn obeys_from_spec() -> bool {
        true
    }

    open spec fn from_spec(value: RbTeamPuzzleState) -> i16 {
        value.code_of()
    }
}

impl RbTeamPuzzleState {
    pub open spec fn is_accessible(self) -> bool {
        self is Unlocked || self is Solved
    }

    /// Whether the team may see the puzzle.
    pub fn accessible(&self) -> (r: bool)
        ensures
            r == self.is_accessible(),
    {
        matches!(self, Self::Unlocked | Self::Solved)
    }
}

/// What a judged answer leads to.
#[derive(Debug, Clone, Copy, PartialEq, Eq, Structural)]
pub enum RbJudgeAction {
    Error,
    Pending,
    Fail,
    Correct,
    Milestone,
    StartGame,
    EasterEgg,
    FinishGame,
    /// Any other code.
    Invalid,
}

impl RbJudgeAction {
    /// The number that stands for a value in storage.
    pub open spec fn code_of(self) -> i16 {
        match self {
            RbJudgeAction::Error => -2 as i16,
            RbJudgeAction::Pending => -1 as i16,
            RbJudgeAction::Fail => 0,
            RbJudgeAction::Correct => 1,
            RbJudgeAction::Milestone => 2,
            RbJudgeAction::StartGame => 3,
            RbJudgeAction::EasterEgg => 4,
            RbJudgeAction::FinishGame => 5,
            RbJudgeAction::Invalid => 6,
        }
    }

    /// The value that a number in storage stands for.
    pub open spec fn from_code(code: i16) -> Self {
        if code == -2 {
            RbJudgeAction::Error
        } else if code == -1 {
            RbJudgeAction::Pending
        } else if code == 0 {
            RbJudgeAction::Fail
        } else if code == 1 {
            RbJudgeAction::Correct
        } else if code == 2 {
            RbJudgeAction::Milestone
        } else if code == 3 {
            RbJudgeAction::StartGame
        } else if code == 4 {
            RbJudgeAction::EasterEgg
        } else if code == 5 {
            RbJudgeAction::FinishGame
        } else {
            RbJudgeAction::Invalid
        }
    }

    /// A value is the one that its own number stands for.
    pub proof fn codes_read_back(self)
        ensures
            Self::from_code(self.code_of()) == self,
    {
    }
}

impl From<i16> for RbJudgeAction {
    fn from(code: i16) -> (r: Self) {
        if code == -2 {
            RbJudgeAction::Error
        } else if code == -1 {
            RbJudgeAction::Pending
        } else if code == 0 {
            RbJudgeAction::Fail
        } else if code == 1 {
            RbJudgeAction::Correct
        } else if code == 2 {
            RbJudgeAction::Milestone
        } else if code == 3 {
            RbJudgeAction::StartGame
        } else if code == 4 {
            RbJudgeAction::EasterEgg
        } else if code == 5 {
            RbJudgeAction::FinishGame
        } else {
            RbJudgeAction::Invalid
        }
    }
}

impl FromSpecImpl<i16> for RbJudgeAction {
    open spec fn obeys_from_spec() -> bool {
        true
    }

    open spec fn from_spec(code: i16) -> Self {
        RbJudgeAction::from_code(code)
    }
}

impl From<RbJudgeAction> for i16 {
    fn from(value: RbJudgeAction) -> (r: i16) {
        match value {
            RbJudgeAction::Error => -2,
            RbJudgeAction::Pending => -1,
            RbJudgeAction::Fail => 0,
            RbJudgeAction::Correct => 1,
            RbJudgeAction::Milestone => 2,
            RbJudgeAction::StartGame => 3,
            RbJudgeAction::EasterEgg => 4,
            RbJudgeAction::FinishGame => 5,
            RbJudgeAction::Invalid => 6,
        }
    }
}

impl FromSpecImpl<RbJudgeAction> for i16 {
    open spec fn obeys_from_spec() -> bool {
        true
    }

    open spec fn from_spec(value: RbJudgeAction) -> i16 {
        value.code_of()
    }
}

impl RbJudgeAction {
    pub open spec fn has_side_effect(self) -> bool {
        self is Correct || self is StartGame || self is FinishGame
    }

    /// Whether the action changes the team's progress.
    pub fn side_effect(&self) -> (r: bool)
        ensures
            r == self.has_side_effect(),
    {
        matches!(self, Self::Correct | Self::StartGame | Self::FinishGame)
    }

    /// The action that a word names.
    pub open spec fn from_word(s: Seq<char>) -> Self {
        if s == "fail"@ {
            RbJudgeAction::Fail
        } else if s == "correct"@ {
            RbJudgeAction::Correct
        } else if s == "milestone"@ {
            RbJudgeAction::Milestone
        } else if s == "start_game"@ {
            RbJudgeAction::StartGame
        } else if s == "easter_egg"@ {
            RbJudgeAction::EasterEgg
        } else if s == "finish_game"@ {
            RbJudgeAction::FinishGame
        } else {
            RbJudgeAction::Error
        }
    }

    /// The action that a word names, if there is a word.
    pub open spec fn from_optional_word(s: Option<String>) -> Self {
        match s {
            Some(s) => Self::from_word(s@),
            None => RbJudgeAction::Error,
        }
    }
}

impl From<&str> for RbJudgeAction {
    fn from(s: &str) -> (r: Self) {
        if same(s, "fail") {
            RbJudgeAction::Fail
        } else if same(s, "correct") {
            RbJudgeAction::Correct
        } else if same(s, "milestone") {
            RbJudgeAction::Milestone
        } else if same(s, "start_game") {
            RbJudgeAction::StartGame
        } else if same(s, "easter_egg") {
            RbJudgeAction::EasterEgg
        } else if same(s, "finish_game") {
            RbJudgeAction::FinishGame
        } else {
            RbJudgeAction::Error
        }
    }
}

impl FromSpecImpl<&str> for RbJudgeAction {
    open spec fn obeys_from_spec() -> bool {
        true
    }

    open spec fn from_spec(s: &str) -> Self {
        RbJudgeAction::from_word(s@)
    }
}

impl From<String> for RbJudgeAction {
    fn from(s: String) -> (r: Self) {
        RbJudgeAction::from(s.as_str())
    }
}

impl FromSpecImpl<String> for RbJudgeAction {
    open spec fn obeys_from_spec() -> bool {
        true
    }

    open spec fn from_spec(s: String) -> Self {
        RbJudgeAction::from_word(s@)
    }
}

impl From<Option<String>> for RbJudgeAction {
    fn from(opt: Option<String>) -> (r: Self) {
        match opt {
            Some(s) => RbJudgeAction::from(s.as_str()),
            None => RbJudgeAction::Error,
        }
    }
}

impl FromSpecImpl<Option<String>> for RbJudgeAction {
    open spec fn obeys_from_spec() -> bool {
        true
    }

    open spec fn from_spec(opt: Option<String>) -> Self {
        RbJudgeAction::from_optional_word(opt)
    }
}

/// What a wrong answer costs.
#[derive(Debug, Clone, Copy, PartialEq, Eq, Structural)]
pub enum RbPuzzlePenaltyType {
    No,
    FixedTime,
    LinearTime,
    Currency,
}

/// Whether a ticket is open.
#[derive(Debug, Clone, Copy, PartialEq, Eq, Structural)]
pub enum RbTicketState {
    Closed,
    Open,
    /// Any other code.
    Invalid,
}

impl RbTicketState {
    /// The number that stands for a value in storage.
    pub open spec fn code_of(self) -> i16 {
        match self {
            RbTicketState::Closed => 0,
            RbTicketState::Open => 1,
            RbTicketState::Invalid => 2,
        }
    }

    /// The value that a number in storage stands for.
    pub open spec fn from_code(code: i16) -> Self {
        if code == 0 {
            RbTicketState::Closed
        } else if code == 1 {
            RbTicketState::Open
        } else {
            RbTicketState::Invalid
        }
    }

    /// A value is the one that its own number stands for.
    pub proof fn codes_read_back(self)
        ensures
            Self::from_code(self.code_of()) == self,
    {
    }
}

impl From<i16> for RbTicketState {
    fn from(code: i16) -> (r: Self) {
        if code == 0 {
            RbTicketState::Closed
        } else if code == 1 {
            RbTicketState::Open
        } else {
            RbTicketState::Invalid
        }
    }
}

impl FromSpecImpl<i16> for RbTicketState {
    open spec fn obeys_from_spec() -> bool {
        true
    }

    open spec fn from_spec(code: i16) -> Self {
        RbTicketState::from_code(code)
    }
}

impl From<RbTicketState> for i16 {
    fn from(value: RbTicketState) -> (r: i16) {
        match value {
            RbTicketState::Closed => 0,
            RbTicketState::Open => 1,
            RbTicketState::Invalid => 2,
        }
    }
}

impl FromSpecImpl<RbTicketState> for i16 {
    open spec fn obeys_from_spec() -> bool {
        true
    }

    open spec fn from_spec(value: RbTicketState) -> i16 {
        value.code_of()
    }
}

/// Who writes in a ticket.
#[derive(Debug, Clone, Copy, PartialEq, Eq, Structural)]
pub enum RbTicketSenderType {
    Team,
    Host,
    /// Any other code.
    Invalid,
}

impl RbTicketSenderType {
    /// The number that stands for a value in storage.
    pub open spec fn code_of(self) -> i16 {
        match self {
            RbTicketSenderType::Team => 0,
            RbTicketSenderType::Host => 1,
            RbTicketSenderType::Invalid => 2,
        }
    }

    /// The value that a number in storage stands for.
    pub open spec fn from_code(code: i16) -> Self {
        if code == 0 {
            RbTicketSenderType::Team
        } else if code == 1 {
            RbTicketSenderType::Host
        } else {
            RbTicketSenderType::Invalid
        }
    }

    /// A value is the one that its own number stands for.
    pub proof fn codes_read_back(self)
        ensures
            Self::from_code(self.code_of()) == self,
    {
    }
}

impl From<i16> for RbTicketSenderType {
    fn from(code: i16) -> (r: Self) {
        if code == 0 {
            RbTicketSenderType::Team
        } else if code == 1 {
            RbTicketSenderType::Host
        } else {
            RbTicketSenderType::Invalid
        }
    }
}

impl FromSpecImpl<i16> for RbTicketSenderType {
    open spec fn obeys_from_spec() -> bool {
        true
    }

    open spec fn from_spec(code: i16) -> Self {
        RbTicketSenderType::from_code(code)
    }
}

impl From<RbTicketSenderType> for i16 {
    fn from(value: RbTicketSenderType) -> (r: i16) {
        match value {
            RbTicketSenderType::Team => 0,
            RbTicketSenderType::Host => 1,
            RbTicketSenderType::Invalid => 2,
        }
    }
}

impl FromSpecImpl<RbTicketSenderType> for i16 {
    open spec fn obeys_from_spec() -> bool {
        true
    }

    open spec fn from_spec(value: RbTicketSenderType) -> i16 {
        value.code_of()
    }
}


/// How teams of a game are made up.
#[derive(Debug, Clone, Copy, PartialEq, Eq, Structural)]
pub struct RbGameTeamSettings {
    pub max_members: i32,
}

/// A game's settings.
#[derive(Debug)]
pub struct RbGameSettings {
    pub team: RbGameTeamSettings,
    pub ticket: Json,
}

/// A part of a game's settings that is stored and read by itself.
pub trait GameSettingGroup: Sized {
    /// Where the group stands in the settings.
    spec fn place() -> Seq<Seq<char>>;

    /// The group with what cannot stand replaced by the default.
    spec fn sanitized(self) -> Self;

    fn path() -> (r: Vec<String>)
        ensures
            r@.len() == Self::place().len(),
            forall|i: int| 0 <= i < r@.len() ==> (#[trigger] r@[i])@ == Self::place()[i],
    ;

    fn sanitize(self) -> (r: Self)
        ensures
            r == self.sanitized(),
    ;
}

pub const DEFAULT_MAX_MEMBERS: i32 = 6;

impl Default for RbGameTeamSettings {
    fn default() -> (r: Self)
        ensures
            r.max_members == DEFAULT_MAX_MEMBERS,
    {
        RbGameTeamSettings { max_members: DEFAULT_MAX_MEMBERS }
    }
}

impl Default for RbGameSettings {
    fn default() -> (r: Self)
        ensures
            r.team.max_members == DEFAULT_MAX_MEMBERS,
            r.ticket@ == J::Object(Map::empty()),
            r.ticket.wf(),
    {
        RbGameSettings { team: RbGameTeamSettings::default(), ticket: Json::Object(Vec::new()) }
    }
}

impl GameSettingGroup for RbGameTeamSettings {
    open spec fn place() -> Seq<Seq<char>> {
        seq!["team"@]
    }

    open spec fn sanitized(self) -> Self {
        if self.max_members <= 0 {
            RbGameTeamSettings { max_members: DEFAULT_MAX_MEMBERS }
        } else {
            self
        }
    }

    fn path() -> (r: Vec<String>) {
        let mut r: Vec<String> = Vec::new();
        r.push("team".to_owned());
        r
    }

    fn sanitize(self) -> (r: Self) {
        if self.max_members <= 0 {
            Self::default()
        } else {
            self
        }
    }
}

/// Whether a value may be patched into a limit on members.
pub open spec fn is_member_limit(v: J) -> bool {
    v is Null || (json::integer_of(v) matches Some(n) && 0 < n <= i32::MAX)
}

/// Whether a value may be patched into the team settings.
pub open spec fn is_team_patch(v: J) -> bool {
    match v {
        J::Null => true,
        J::Object(m) => forall|k: Seq<char>| #[trigger]
            m.dom().contains(k) ==> k == "max_members"@ && is_member_limit(m[k]),
        _ => false,
    }
}

/// Whether a value may be patched into a game's settings.
pub open spec fn is_settings_patch(v: J) -> bool {
    match v {
        J::Object(m) => forall|k: Seq<char>| #[trigger]
            m.dom().contains(k) ==> if k == "team"@ {
                is_team_patch(m[k])
            } else {
                k == "ticket"@ && (m[k] is Null || m[k] is Object)
            },
        _ => false,
    }
}

impl RbGameTeamSettings {
    /// Whether a value may be patched into the team settings.
    pub fn validate_patch(value: &Json) -> (r: bool)
        requires
            value.wf(),
        ensures
            r == is_team_patch(value@),
    {
        match value {
            Json::Null => true,
            Json::Object(entries) => {
                let ghost m = json::object_view(entries@);
                proof {
                    json::lemma_object_view(entries@);
                }
                let mut i: usize = 0;
                while i < entries.len()
                    invariant
                        i <= entries@.len(),
                        m == json::object_view(entries@),
                        value@ == J::Object(m),
                        forall|k: Seq<char>| #[trigger]
                            m.dom().contains(k) <==> exists|j: int|
                                0 <= j < entries@.len() && (#[trigger] entries@[j]).0@ == k,
                        forall|j: int|
                            0 <= j < entries@.len() ==> m[(#[trigger] entries@[j]).0@]
                                == entries@[j].1@,
                        forall|j: int|
                            0 <= j < i ==> (#[trigger] entries@[j]).0@ == "max_members"@
                                && is_member_limit(entries@[j].1@),
                    decreases entries@.len() - i,
                {
                    let entry = &entries[i];
                    assert(m.dom().contains(entries@[i as int].0@));
                    assert(value@->Object_0.dom().contains(entries@[i as int].0@));
                    if !same(entry.0.as_str(), "max_members") {
                        return false;
                    }
                    let ok = entry.1.is_null() || match entry.1.as_i64() {
                        Some(n) => n > 0 && n <= i32::MAX as i64,
                        None => false,
                    };
                    if !ok {
                        return false;
                    }
                    i += 1;
                }
                true
            },
            _ => false,
        }
    }
}

impl RbGameSettings {
    /// The settings of a game that has none, as JSON.
    pub open spec fn default_json() -> J {
        J::Object(
            map![
                "team"@ => J::Object(
                    map!["max_members"@ => J::Number(JNumber::Int(DEFAULT_MAX_MEMBERS as int))],
                ),
                "ticket"@ => J::Object(Map::empty()),
            ],
        )
    }

    /// The settings of a game that has none, as JSON.
    pub fn default_value() -> (r: Json)
        ensures
            r.wf(),
            r@ == Self::default_json(),
    {
        let mut team: Vec<(String, Json)> = Vec::new();
        team.push(
            ("max_members".to_owned(), Json::Number(JsonNumber::PosInt(DEFAULT_MAX_MEMBERS as u64))),
        );
        let ghost inner = json::object_view(team@);
        assert(json::json_wf(team@[0].1));
        let mut root: Vec<(String, Json)> = Vec::new();
        root.push(("team".to_owned(), Json::Object(team)));
        root.push(("ticket".to_owned(), Json::Object(Vec::new())));
        proof {
            reveal_strlit("team");
            reveal_strlit("ticket");
            assert("team"@.len() != "ticket"@.len());
            reveal_with_fuel(json::object_view, 3);
            assert(team@.drop_last() =~= Seq::<(String, Json)>::empty());
            assert(inner =~= map![
                "max_members"@ => J::Number(JNumber::Int(DEFAULT_MAX_MEMBERS as int)),
            ]);
            assert(root@.drop_last().drop_last() =~= Seq::<(String, Json)>::empty());
            assert(json::object_view(root@) =~= Self::default_json()->Object_0);
            assert(json::json_wf(root@[0].1));
            assert(json::json_wf(root@[1].1));
        }
        Json::Object(root)
    }

    /// Whether a value may be patched into a game's settings.
    pub fn validate_patch(value: &Json) -> (r: bool)
        requires
            value.wf(),
        ensures
            r == is_settings_patch(value@),
    {
        match value {
            Json::Object(entries) => {
                let ghost m = json::object_view(entries@);
                proof {
                    json::lemma_object_view(entries@);
                }
                let mut i: usize = 0;
                while i < entries.len()
                    invariant
                        i <= entries@.len(),
                        m == json::object_view(entries@),
                        *value == Json::Object(*entries),
                        value.wf(),
                        value@ == J::Object(m),
                        forall|k: Seq<char>| #[trigger]
                            m.dom().contains(k) <==> exists|j: int|
                                0 <= j < entries@.len() && (#[trigger] entries@[j]).0@ == k,
                        forall|j: int|
                            0 <= j < entries@.len() ==> m[(#[trigger] entries@[j]).0@]
                                == entries@[j].1@,
                        forall|j: int|
                            0 <= j < i ==> if (#[trigger] entries@[j]).0@ == "team"@ {
                                is_team_patch(entries@[j].1@)
                            } else {
                                entries@[j].0@ == "ticket"@ && (entries@[j].1@ is Null
                                    || entries@[j].1@ is Object)
                            },
                    decreases entries@.len() - i,
                {
                    let entry = &entries[i];
                    assert(m.dom().contains(entries@[i as int].0@));
                    assert(value@->Object_0.dom().contains(entries@[i as int].0@));
                    assert(json::json_wf(value->Object_0@[i as int].1));
                    let ok = if same(entry.0.as_str(), "team") {
                        RbGameTeamSettings::validate_patch(&entry.1)
                    } else {
                        same(entry.0.as_str(), "ticket") && (entry.1.is_null()
                            || entry.1.is_object())
                    };
                    if !ok {
                        return false;
                    }
                    i += 1;
                }
                true
            },
            _ => false,
        }
    }

    /// The stored form of some settings: an object, an empty one where there is none.
    pub open spec fn storage_form(value: Option<J>) -> J {
        match value {
            Some(J::Object(m)) => J::Object(m),
            _ => J::Object(Map::empty()),
        }
    }

    /// The stored form of some settings.
    pub fn sanitize_storage(value: Option<Json>) -> (r: Json)
        requires
            value matches Some(v) ==> v.wf(),
        ensures
            r.wf(),
            r@ == Self::storage_form(match value {
                Some(v) => Some(v@),
                None => None,
            }),
    {
        match value {
            Some(v) => {
                if v.is_object() {
                    v
                } else {
                    Json::Object(Vec::new())
                }
            },
            None => Json::Object(Vec::new()),
        }
    }

    /// What is read as a game's settings: the stored value laid over the default.
    pub fn with_defaults(value: Option<Json>) -> (r: Json)
        requires
            value matches Some(v) ==> v.wf(),
        ensures
            r.wf(),
            r@ == json::merged(
                Self::default_json(),
                match value {
                    Some(v) => v@,
                    None => J::Null,
                },
            ),
    {
        let patch = match value {
            Some(v) => v,
            None => Json::Null,
        };
        Json::merge_patch(Self::default_value(), patch)
    }

    /// The settings that a game has, given what its stored settings read as: the default where they
    /// could not be read, and defaults for the parts that cannot stand.
    pub fn sanitize(parsed: Option<RbGameSettings>) -> (r: RbGameSettings)
        ensures
            match parsed {
                None => r.team.max_members == DEFAULT_MAX_MEMBERS && r.ticket@ == J::Object(
                    Map::empty(),
                ),
                Some(p) => {
                    &&& r.team == p.team.sanitized()
                    &&& p.ticket@ is Object ==> r.ticket@ == p.ticket@
                    &&& !(p.ticket@ is Object) ==> r.ticket@ == J::Object(Map::empty())
                },
            },
            r.team.max_members > 0,
            r.ticket@ is Object,
    {
        match parsed {
            None => Self::default(),
            Some(p) => {
                let team = p.team.sanitize();
                if p.ticket.is_object() {
                    RbGameSettings { team, ticket: p.ticket }
                } else {
                    RbGameSettings { team, ticket: Self::default().ticket }
                }
            },
        }
    }

    /// What a new game stores as its settings.
    pub fn created(patch: Option<Json>) -> (r: Json)
        requires
            patch matches Some(v) ==> v.wf(),
        ensures
            r.wf(),
            r@ == Self::storage_form(
                Some(
                    json::merged(
                        Self::default_json(),
                        match patch {
                            Some(v) => v@,
                            None => J::Null,
                        },
                    ),
                ),
            ),
    {
        Self::sanitize_storage(Some(Self::with_defaults(patch)))
    }

    /// What a game stores as its settings after a patch.
    pub fn patched(current: Json, patch: Json) -> (r: Json)
        requires
            current.wf(),
            patch.wf(),
        ensures
            r.wf(),
            r@ == Self::storage_form(Some(json::merged(current@, patch@))),
    {
        Self::sanitize_storage(Some(Json::merge_patch(current, patch)))
    }
}

impl RbGameTeamSettings {
    pub open spec fn default_json() -> J {
        J::Object(map!["max_members"@ => J::Number(JNumber::Int(DEFAULT_MAX_MEMBERS as int))])
    }

    /// What is read as a game's team settings: the stored value laid over the default.
    pub fn with_defaults(value: Option<Json>) -> (r: Json)
        requires
            value matches Some(v) ==> v.wf(),
        ensures
            r.wf(),
            r@ == json::merged(
                Self::default_json(),
                match value {
                    Some(v) => v@,
                    None => J::Null,
                },
            ),
    {
        let mut team: Vec<(String, Json)> = Vec::new();
        team.push(
            ("max_members".to_owned(), Json::Number(JsonNumber::PosInt(DEFAULT_MAX_MEMBERS as u64))),
        );
        proof {
            reveal_with_fuel(json::object_view, 2);
            assert(team@.drop_last() =~= Seq::<(String, Json)>::empty());
            assert(json::object_view(team@) =~= Self::default_json()->Object_0);
            assert(json::json_wf(team@[0].1));
        }
        let patch = match value {
            Some(v) => v,
            None => Json::Null,
        };
        Json::merge_patch(Json::Object(team), patch)
    }

    /// The team settings that a game has, given what its stored ones read as.
    pub fn decoded(parsed: Option<RbGameTeamSettings>) -> (r: RbGameTeamSettings)
        ensures
            r == (match parsed {
                Some(p) => p.sanitized(),
                None => (RbGameTeamSettings { max_members: DEFAULT_MAX_MEMBERS }),
            }),
            r.max_members > 0,
    {
        match parsed {
            Some(p) => p.sanitize(),
            None => Self::default(),
        }
    }
}

/// Each state, type and action is stored as its own number, and a number that none has is read as
/// invalid.
pub proof fn stored_numbers_have_their_meaning(code: i16)
    ensures
        RbTeamState::from_code(code) == RbTeamState::Banned <==> code == -1,
        RbTeamState::from_code(code) == RbTeamState::Open <==> code == 0,
        RbTeamState::from_code(code) == RbTeamState::InGame <==> code == 1,
        RbTeamState::from_code(code) == RbTeamState::Finished <==> code == 2,
        RbPuzzleType::from_code(code) == RbPuzzleType::Normal <==> code == 0,
        RbPuzzleType::from_code(code) == RbPuzzleType::Story <==> code == 1,
        RbContentType::from_code(code) == RbContentType::Markdown <==> code == 0,
        RbContentType::from_code(code) == RbContentType::Html <==> code == 1,
        RbContentType::from_code(code) == RbContentType::UnsafeMarkdown <==> code == 2,
        RbTeamPuzzleState::from_code(code) == RbTeamPuzzleState::Locked <==> code == -1,
        RbTeamPuzzleState::from_code(code) == RbTeamPuzzleState::Unlocked <==> code == 0,
        RbTeamPuzzleState::from_code(code) == RbTeamPuzzleState::Solved <==> code == 1,
        RbTeamPuzzleState::from_code(code).is_accessible() <==> code == 0 || code == 1,
        RbTicketState::from_code(code) == RbTicketState::Closed <==> code == 0,
        RbTicketState::from_code(code) == RbTicketState::Open <==> code == 1,
        RbTicketSenderType::from_code(code) == RbTicketSenderType::Team <==> code == 0,
        RbTicketSenderType::from_code(code) == RbTicketSenderType::Host <==> code == 1,
        RbContentType::from_code(code).trusted() <==> code == 0 || code == 1,
{
}

/// Verdicts are stored as their own numbers; three of them change how a team stands.
pub proof fn stored_verdicts_have_their_meaning(code: i16)
    ensures
        RbJudgeAction::from_code(code) == RbJudgeAction::Error <==> code == -2,
        RbJudgeAction::from_code(code) == RbJudgeAction::Pending <==> code == -1,
        RbJudgeAction::from_code(code) == RbJudgeAction::Fail <==> code == 0,
        RbJudgeAction::from_code(code) == RbJudgeAction::Correct <==> code == 1,
        RbJudgeAction::from_code(code) == RbJudgeAction::Milestone <==> code == 2,
        RbJudgeAction::from_code(code) == RbJudgeAction::StartGame <==> code == 3,
        RbJudgeAction::from_code(code) == RbJudgeAction::EasterEgg <==> code == 4,
        RbJudgeAction::from_code(code) == RbJudgeAction::FinishGame <==> code == 5,
        RbJudgeAction::from_code(code).has_side_effect() <==> code == 1 || code == 3 || code == 5,
{
}

/// Rules name verdicts by words; a word that names none, and a missing one, stand for an error.
pub proof fn words_name_verdicts(s: Seq<char>)
    ensures
        RbJudgeAction::from_word("fail"@) == RbJudgeAction::Fail,
        RbJudgeAction::from_word("correct"@) == RbJudgeAction::Correct,
        RbJudgeAction::from_word("milestone"@) == RbJudgeAction::Milestone,
        RbJudgeAction::from_word("start_game"@) == RbJudgeAction::StartGame,
        RbJudgeAction::from_word("easter_egg"@) == RbJudgeAction::EasterEgg,
        RbJudgeAction::from_word("finish_game"@) == RbJudgeAction::FinishGame,
        RbJudgeAction::from_optional_word(None) == RbJudgeAction::Error,
        s != "fail"@ && s != "correct"@ && s != "milestone"@ && s != "start_game"@ && s
            != "easter_egg"@ && s != "finish_game"@ ==> RbJudgeAction::from_word(s)
            == RbJudgeAction::Error,
{
    reveal_strlit("fail");
    reveal_strlit("correct");
    reveal_strlit("milestone");
    reveal_strlit("start_game");
    reveal_strlit("easter_egg");
    reveal_strlit("finish_game");
    assert("fail"@.len() == 4 && "correct"@.len() == 7 && "milestone"@.len() == 9
        && "start_game"@.len() == 10 && "easter_egg"@.len() == 10 && "finish_game"@.len() == 11);
    assert("start_game"@[0] == 's' && "easter_egg"@[0] == 'e');
}

/// A team takes as many members as is set, and six where that is not a positive number.
pub proof fn teams_take_members(settings: RbGameTeamSettings)
    ensures
        settings.max_members > 0 ==> settings.sanitized() == settings,
        settings.max_members <= 0 ==> settings.sanitized().max_members == 6,
        settings.sanitized().sanitized() == settings.sanitized(),
        settings.sanitized().max_members > 0,
{
}

/// Settings may be changed by an object that names the team's settings, the tickets' or none; the
/// team's settings hold the limit of members alone, a positive number of 32 bits or null.
pub proof fn patches_of_settings_hold_known_parts(m: Map<Seq<char>, J>, v: J, key: Seq<char>)
    ensures
        is_settings_patch(J::Object(Map::empty())),
        !(v is Object) ==> !is_settings_patch(v),
        m.dom().contains(key) && key != "team"@ && key != "ticket"@ ==> !is_settings_patch(
            J::Object(m),
        ),
        m.dom().contains("team"@) && !is_team_patch(m["team"@]) ==> !is_settings_patch(J::Object(m)),
        m.dom().contains("ticket"@) && !(m["ticket"@] is Null) && !(m["ticket"@] is Object)
            ==> !is_settings_patch(J::Object(m)),
        is_team_patch(J::Null),
        !(v is Null) && !(v is Object) ==> !is_team_patch(v),
        m.dom().contains(key) && key != "max_members"@ ==> !is_team_patch(J::Object(m)),
        m.dom().contains("max_members"@) && !is_member_limit(m["max_members"@]) ==> !is_team_patch(
            J::Object(m),
        ),
        is_member_limit(v) <==> v is Null || exists|n: int|
            0 < n <= i32::MAX && v == #[trigger] json::int_json(n),
{
    reveal_strlit("team");
    reveal_strlit("ticket");
    assert("team"@.len() == 4 && "ticket"@.len() == 6);
    if is_member_limit(v) && !(v is Null) {
        let n = json::integer_of(v)->0 as int;
        assert(v == json::int_json(n));
    }
}

/// Settings are stored as an object, and as an empty one where they are none.
pub proof fn settings_are_stored_as_objects(m: Map<Seq<char>, J>, v: J)
    ensures
        RbGameSettings::storage_form(Some(J::Object(m))) == J::Object(m),
        RbGameSettings::storage_form(None) == J::Object(Map::empty()),
        !(v is Object) ==> RbGameSettings::storage_form(Some(v)) == J::Object(Map::empty()),
{
}

/// A game without settings takes six members in a team and says nothing of tickets.
pub proof fn games_without_settings_take_six()
    ensures
        RbGameSettings::default_json() is Object,
        RbGameSettings::default_json()->Object_0["team"@] == RbGameTeamSettings::default_json(),
        RbGameSettings::default_json()->Object_0["ticket"@] == J::Object(Map::empty()),
        RbGameTeamSettings::default_json()->Object_0["max_members"@] == json::int_json(6),
        RbGameTeamSettings::default_json()->Object_0.dom() == set!["max_members"@],
{
    reveal_strlit("team");
    reveal_strlit("ticket");
    assert("team"@.len() == 4 && "ticket"@.len() == 6);
    assert(RbGameTeamSettings::default_json()->Object_0.dom() =~= set!["max_members"@]);
}

} // verus!
