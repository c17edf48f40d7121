//! Tickets: conversations between a team and the staff.
pub mod message;
pub mod opening;
pub mod page;
pub mod staff;

use vstd::prelude::*;

use crate::model::user;
use crate::clock::Timestamp;
use crate::db::event_log::{id_value, CurrencyEventData, EventLogInput, EventRefs};
use crate::db::event_log;
use crate::db::puzzle::hint;
use crate::db::round::RbRoundSimpleData;
use crate::db::team::currency::{RbCurrencyShowData, StoredBalance};
use crate::db::team::growth;
use crate::db::team::growth::Payment;
use crate::db::ticket::page::TicketHistory;
use crate::error::RbInternalError;
use crate::game::judge;
use crate::json::{Fields, Json, J};
use crate::json;
use crate::model::game::{
    RbContentType, RbTeamPuzzleState, RbTeamState, RbTicketSenderType, RbTicketState,
};
use crate::model::user::{avatar_url, AvatarProvider, RbUserRole};

verus! {

/// What a user may do with a ticket.
#[derive(Debug, Clone, Copy, PartialEq, Eq, Structural)]
pub struct TicketUserInfo {
    pub ticket_id: i32,
    pub state: RbTicketState,
    pub member_access: bool,
    pub mod_access: bool,
    pub admin_access: bool,
}

/// A ticket and a user, as they are stored.
#[derive(Debug, Clone, Copy, PartialEq, Eq, Structural)]
pub struct TicketUserRow {
    pub state: i16,
    pub urole: i16,
    pub is_member: Option<bool>,
}

/// What a user may do with a ticket, where both are there.
pub fn get_ticket_user_info(row: Option<TicketUserRow>, ticket_id: i32) -> (r: Option<
    TicketUserInfo,
>)
    ensures
        r == (match row {
            Some(row) => Some(
                TicketUserInfo {
                    ticket_id,
                    state: RbTicketState::from_code(row.state),
                    member_access: row.is_member == Some(true),
                    mod_access: RbUserRole::from_code(row.urole).moderates(),
                    admin_access: RbUserRole::from_code(row.urole).administers(),
                },
            ),
            None => None,
        }),
{
    match row {
        Some(row) => {
            let role: RbUserRole = row.urole.into();
            let member_access = match row.is_member {
                Some(member) => member,
                None => false,
            };
            Some(
                TicketUserInfo {
                    ticket_id,
                    state: row.state.into(),
                    member_access,
                    mod_access: role.is_moderator(),
                    admin_access: role.is_admin(),
                },
            )
        },
        None => None,
    }
}

/// A team, as a ticket shows it.
#[derive(Debug)]
pub struct TicketAggreInfoTeam {
    pub id: i32,
    pub name: String,
    pub state: RbTeamState,
    pub currency: Vec<RbCurrencyShowData>,
}

/// A puzzle, as a ticket shows it.
#[derive(Debug)]
pub struct TicketAggreInfoPuzzle {
    pub id: i32,
    pub slug: Option<String>,
    pub title: String,
    pub state: RbTeamPuzzleState,
    pub round: RbRoundSimpleData,
}

/// A user, as a ticket shows them.
#[derive(Debug)]
pub struct TicketAggreInfoUser {
    pub id: i32,
    pub nickname: String,
    pub avatar: Option<String>,
    pub email: Option<String>,
}

/// The picture of a user whose mail address is known.
pub open spec fn picture(email: Option<Seq<char>>, provider: Option<i16>) -> Option<Seq<char>> {
    match email {
        Some(email) => Some(
            user::avatar_address(
                user::mail_digest(email),
                AvatarProvider::stored(
                    match provider {
                        Some(code) => code,
                        None => 0,
                    },
                ),
            ),
        ),
        None => None,
    }
}

/// The picture of a user whose mail address is known.
pub fn user_avatar(email: &Option<String>, provider: Option<i16>) -> (r: Option<String>)
    ensures
        judge::text_in(r) == picture(judge::text_in(*email), provider),
{
    match email {
        Some(email) => {
            let code: i16 = match provider {
                Some(code) => code,
                None => 0,
            };
            Some(avatar_url(email.as_str(), AvatarProvider::from_stored(code)))
        },
        None => None,
    }
}

/// A message of a ticket.
#[derive(Debug)]
pub struct TicketMessage {
    pub id: i32,
    pub sender: TicketAggreInfoUser,
    pub sender_type: RbTicketSenderType,
    pub cost_id: Option<i32>,
    pub cost_amount: i64,
    pub unlocked: bool,
    pub content: Option<String>,
    pub content_type: Option<RbContentType>,
    pub ctime_at: Timestamp,
    pub utime_at: Option<Timestamp>,
}

impl TicketMessage {
    pub fn id(&self) -> (r: i32)
        ensures
            r == self.id,
    {
        self.id
    }
}

/// What an item of a thread is.
#[derive(Debug, Clone, Copy, PartialEq, Eq, Structural)]
pub enum TicketThreadItemType {
    Message,
    Operation,
}

impl TicketThreadItemType {
    pub open spec fn code_of(self) -> i16 {
        match self {
            TicketThreadItemType::Message => 0,
            TicketThreadItemType::Operation => 1,
        }
    }

    /// The number that is shown.
    pub fn code(self) -> (r: i16)
        ensures
            r == self.code_of(),
    {
        match self {
            TicketThreadItemType::Message => 0,
            TicketThreadItemType::Operation => 1,
        }
    }
}

/// What is done with a ticket.
#[derive(Debug, Clone, Copy, PartialEq, Eq, Structural)]
pub enum TicketOperationAction {
    Open,
    Close,
    AutoCloseSolved,
}

impl TicketOperationAction {
    /// The number that stands for an action in storage.
    pub open spec fn code_of(self) -> i16 {
        match self {
            TicketOperationAction::Open => 1,
            TicketOperationAction::Close => 2,
            TicketOperationAction::AutoCloseSolved => 3,
        }
    }

    /// The action that a number stands for; unknown numbers stand for a closing.
    pub open spec fn from_code(code: i16) -> Self {
        if code == 1 {
            TicketOperationAction::Open
        } else if code == 3 {
            TicketOperationAction::AutoCloseSolved
        } else {
            TicketOperationAction::Close
        }
    }

    /// An action that was written is read as it was.
    pub proof fn codes_read_back(self)
        ensures
            Self::from_code(self.code_of()) == self,
    {
    }
}

impl From<i16> for TicketOperationAction {
    fn from(value: i16) -> (r: Self) {
        if value == 1 {
            TicketOperationAction::Open
        } else if value == 3 {
            TicketOperationAction::AutoCloseSolved
        } else {
            TicketOperationAction::Close
        }
    }
}

impl vstd::std_specs::convert::FromSpecImpl<i16> for TicketOperationAction {
    open spec fn obeys_from_spec() -> bool {
        true
    }

    open spec fn from_spec(value: i16) -> Self {
        TicketOperationAction::from_code(value)
    }
}

impl From<TicketOperationAction> for i16 {
    fn from(action: TicketOperationAction) -> (r: i16) {
        match action {
            TicketOperationAction::Open => 1,
            TicketOperationAction::Close => 2,
            TicketOperationAction::AutoCloseSolved => 3,
        }
    }
}

impl vstd::std_specs::convert::FromSpecImpl<TicketOperationAction> for i16 {
    open spec fn obeys_from_spec() -> bool {
        true
    }

    open spec fn from_spec(action: TicketOperationAction) -> i16 {
        action.code_of()
    }
}

/// Something that was done with a ticket.
#[derive(Debug)]
pub struct TicketOperation {
    pub id: i32,
    pub action: TicketOperationAction,
    pub actor: TicketAggreInfoUser,
    pub actor_type: RbTicketSenderType,
    pub message: Option<TicketMessage>,
    pub ctime_at: Timestamp,
}

/// An item of a thread.
#[derive(Debug)]
pub enum TicketThreadItem {
    Message(TicketMessage),
    Operation(TicketOperation),
}

impl TicketThreadItem {
    pub open spec fn time(self) -> Timestamp {
        match self {
            TicketThreadItem::Message(message) => message.ctime_at,
            TicketThreadItem::Operation(operation) => operation.ctime_at,
        }
    }

    pub open spec fn number(self) -> i32 {
        match self {
            TicketThreadItem::Message(message) => message.id,
            TicketThreadItem::Operation(operation) => operation.id,
        }
    }

    /// When the item came about.
    pub fn ctime_at(&self) -> (r: Timestamp)
        ensures
            r == self.time(),
    {
        match self {
            TicketThreadItem::Message(message) => message.ctime_at,
            TicketThreadItem::Operation(operation) => operation.ctime_at,
        }
    }

    pub fn id(&self) -> (r: i32)
        ensures
            r == self.number(),
    {
        match self {
            TicketThreadItem::Message(message) => message.id,
            TicketThreadItem::Operation(operation) => operation.id,
        }
    }

    /// The message that the item is, or that comes with it.
    pub fn message_id(&self) -> (r: Option<i32>)
        ensures
            r == (match *self {
                TicketThreadItem::Message(message) => Some(message.id),
                TicketThreadItem::Operation(operation) => match operation.message {
                    Some(message) => Some(message.id),
                    None => None,
                },
            }),
    {
        match self {
            TicketThreadItem::Message(message) => Some(message.id()),
            TicketThreadItem::Operation(operation) => match &operation.message {
                Some(message) => Some(message.id()),
                None => None,
            },
        }
    }
}

/// A ticket in a list.
#[derive(Debug)]
pub struct TicketSummary {
    pub id: i32,
    pub state: RbTicketState,
    pub game_id: Option<i32>,
    pub team: Option<TicketAggreInfoTeam>,
    pub puzzle: Option<TicketAggreInfoPuzzle>,
    pub msg_count: Option<i64>,
    pub last_at: Option<Timestamp>,
    pub last_by: Option<RbTicketSenderType>,
    pub assignee: Option<TicketAggreInfoUser>,
}

impl TicketSummary {
    pub fn id(&self) -> (r: i32)
        ensures
            r == self.id,
    {
        self.id
    }

    pub fn game_id(&self) -> (r: Option<i32>)
        ensures
            r == self.game_id,
    {
        self.game_id
    }

    pub fn is_puzzle_ticket(&self) -> (r: bool)
        ensures
            r == self.puzzle is Some,
    {
        self.puzzle.is_some()
    }

    /// The currencies that the team of the ticket is shown with.
    pub fn currency_ids(&self) -> (r: Vec<i32>)
        ensures
            r@ == (match self.team {
                Some(team) => team.currency@.map_values(|c: RbCurrencyShowData| c.id),
                None => Seq::empty(),
            }),
    {
        let mut ids: Vec<i32> = Vec::new();
        if let Some(team) = &self.team {
            let mut i: usize = 0;
            let ghost all = team.currency@.map_values(|c: RbCurrencyShowData| c.id);
            while i < team.currency.len()
                invariant
                    i <= team.currency@.len(),
                    all == team.currency@.map_values(|c: RbCurrencyShowData| c.id),
                    ids@ == all.take(i as int),
                decreases team.currency@.len() - i,
            {
                ids.push(team.currency[i].id);
                assert(ids@ =~= all.take(i + 1));
                i += 1;
            }
            assert(all.take(i as int) =~= all);
        }
        ids
    }

    /// Hides who takes care of the ticket.
    pub fn hide_assignee(&mut self)
        ensures
            *final(self) == (TicketSummary { assignee: None, ..*old(self) }),
    {
        self.assignee = None;
    }
}

/// What a user may do in a thread.
#[derive(Debug)]
pub struct TicketPerm {
    pub send_block: TicketSendBlock,
    pub can_host: bool,
    pub can_view_locked: bool,
    pub content_type: Vec<RbContentType>,
    pub currency: Vec<i32>,
}

impl TicketPerm {
    pub fn new(
        can_host: bool,
        can_view_locked: bool,
        can_use_trusted_content: bool,
        currency: Vec<i32>,
        send_block: TicketSendBlock,
    ) -> (r: Self)
        ensures
            r.send_block == send_block,
            r.can_host == can_host,
            r.can_view_locked == can_view_locked,
            r.currency == currency,
            r.content_type@ == (if can_use_trusted_content {
                seq![RbContentType::Markdown, RbContentType::Html, RbContentType::UnsafeMarkdown]
            } else {
                seq![RbContentType::UnsafeMarkdown]
            }),
    {
        let mut content_type: Vec<RbContentType> = Vec::new();
        if can_use_trusted_content {
            content_type.push(RbContentType::Markdown);
            content_type.push(RbContentType::Html);
        }
        content_type.push(RbContentType::UnsafeMarkdown);
        TicketPerm { send_block, can_host, can_view_locked, content_type, currency }
    }
}

/// What stands against sending a message, if anything.
#[derive(Debug, Clone, Copy, PartialEq, Eq, Structural)]
pub enum TicketSendBlock {
    Clear,
    NoAccess,
    Closed,
    Pending,
    FeatureClosed,
    FeatureExistingOnly,
    TeamFeatureBanned,
}

impl TicketSendBlock {
    pub open spec fn code_of(self) -> i16 {
        match self {
            TicketSendBlock::Clear => 0,
            TicketSendBlock::NoAccess => -1 as i16,
            TicketSendBlock::Closed => -2 as i16,
            TicketSendBlock::Pending => -3 as i16,
            TicketSendBlock::FeatureClosed => -4 as i16,
            TicketSendBlock::FeatureExistingOnly => -5 as i16,
            TicketSendBlock::TeamFeatureBanned => -6 as i16,
        }
    }

    /// The number that is shown.
    pub fn code(self) -> (r: i16)
        ensures
            r == self.code_of(),
    {
        match self {
            TicketSendBlock::Clear => 0,
            TicketSendBlock::NoAccess => -1,
            TicketSendBlock::Closed => -2,
            TicketSendBlock::Pending => -3,
            TicketSendBlock::FeatureClosed => -4,
            TicketSendBlock::FeatureExistingOnly => -5,
            TicketSendBlock::TeamFeatureBanned => -6,
        }
    }
}

/// How far a feature is open to a player.
#[derive(Debug, Clone, Copy, PartialEq, Eq, Structural)]
pub enum PlayerFeatureAccess {
    Open,
    ExistingOnly,
    GameClosed,
    TeamFeatureBanned,
}

impl PlayerFeatureAccess {
    pub open spec fn of_value(value: i16) -> Self {
        if value == 2 {
            PlayerFeatureAccess::Open
        } else if value == 1 {
            PlayerFeatureAccess::ExistingOnly
        } else if value == -2 {
            PlayerFeatureAccess::TeamFeatureBanned
        } else {
            PlayerFeatureAccess::GameClosed
        }
    }

    pub open spec fn block_of(self, has_existing: bool) -> TicketSendBlock {
        match self {
            PlayerFeatureAccess::Open => TicketSendBlock::Clear,
            PlayerFeatureAccess::ExistingOnly => if has_existing {
                TicketSendBlock::Clear
            } else {
                TicketSendBlock::FeatureExistingOnly
            },
            PlayerFeatureAccess::GameClosed => TicketSendBlock::FeatureClosed,
            PlayerFeatureAccess::TeamFeatureBanned => TicketSendBlock::TeamFeatureBanned,
        }
    }

    /// How far a feature is open, as a number says it: unknown numbers say that it is closed.
    pub fn from_value(value: i16) -> (r: Self)
        ensures
            r == Self::of_value(value),
    {
        if value == 2 {
            PlayerFeatureAccess::Open
        } else if value == 1 {
            PlayerFeatureAccess::ExistingOnly
        } else if value == -2 {
            PlayerFeatureAccess::TeamFeatureBanned
        } else {
            PlayerFeatureAccess::GameClosed
        }
    }

    /// What stands against sending a message, in a conversation that is there already or in a new
    /// one.
    pub fn send_block(self, has_existing: bool) -> (r: TicketSendBlock)
        ensures
            r == self.block_of(has_existing),
    {
        match self {
            PlayerFeatureAccess::Open => TicketSendBlock::Clear,
            PlayerFeatureAccess::ExistingOnly => {
                if has_existing {
                    TicketSendBlock::Clear
                } else {
                    TicketSendBlock::FeatureExistingOnly
                }
            },
            PlayerFeatureAccess::GameClosed => TicketSendBlock::FeatureClosed,
            PlayerFeatureAccess::TeamFeatureBanned => TicketSendBlock::TeamFeatureBanned,
        }
    }

    /// A feature that is open for new conversations is open for those that are there.
    pub proof fn existing_conversations_are_blocked_least(self)
        ensures
            self.block_of(false) is Clear ==> self.block_of(true) is Clear,
    {
    }
}

/// A thread, as a user sees it.
#[derive(Debug)]
pub struct TicketThread {
    pub ticket: Option<TicketSummary>,
    pub messages: Vec<TicketThreadItem>,
    pub history: TicketHistory,
    pub perm: TicketPerm,
}

impl TicketThread {
    pub fn ticket(&self) -> (r: Option<&TicketSummary>)
        ensures
            match self.ticket {
                Some(ticket) => r == Some(&ticket),
                None => r is None,
            },
    {
        match &self.ticket {
            Some(ticket) => Some(ticket),
            None => None,
        }
    }

    pub fn messages(&self) -> (r: &[TicketThreadItem])
        ensures
            r@ == self.messages@,
    {
        self.messages.as_slice()
    }

    pub fn perm(&self) -> (r: &TicketPerm)
        ensures
            *r == self.perm,
    {
        &self.perm
    }
}

/// What stands against sending a message to a ticket, given how many messages of the team wait for
/// an answer. At most the given number may wait.
pub open spec fn block_at(
    state: RbTicketState,
    can_send: bool,
    max_pending: Option<i64>,
    pending: i64,
) -> TicketSendBlock {
    if !can_send {
        TicketSendBlock::NoAccess
    } else if state is Closed {
        TicketSendBlock::Closed
    } else if max_pending matches Some(max) && pending >= max {
        TicketSendBlock::Pending
    } else {
        TicketSendBlock::Clear
    }
}

/// What stands against sending a message to a ticket.
pub fn calc_send_block(
    state: RbTicketState,
    can_send: bool,
    max_pending: Option<i64>,
    pending: i64,
) -> (r: TicketSendBlock)
    ensures
        r == block_at(state, can_send, max_pending, pending),
{
    if !can_send {
        return TicketSendBlock::NoAccess;
    }
    if matches!(state, RbTicketState::Closed) {
        return TicketSendBlock::Closed;
    }
    if let Some(max) = max_pending {
        if pending >= max {
            return TicketSendBlock::Pending;
        }
    }
    TicketSendBlock::Clear
}

/// What stands against opening a ticket, if anything.
#[derive(Debug, Clone, Copy, PartialEq, Eq, Structural)]
pub enum TicketOpenBlock {
    Clear,
    CurrentPuzzlePending,
    PendingLimit,
    Cooldown,
    Disabled,
    FeatureClosed,
    FeatureExistingOnly,
    TeamFeatureBanned,
}

impl TicketOpenBlock {
    pub open spec fn code_of(self) -> i16 {
        match self {
            TicketOpenBlock::Clear => 0,
            TicketOpenBlock::CurrentPuzzlePending => -1 as i16,
            TicketOpenBlock::PendingLimit => -2 as i16,
            TicketOpenBlock::Cooldown => -3 as i16,
            TicketOpenBlock::Disabled => -4 as i16,
            TicketOpenBlock::FeatureClosed => -5 as i16,
            TicketOpenBlock::FeatureExistingOnly => -6 as i16,
            TicketOpenBlock::TeamFeatureBanned => -7 as i16,
        }
    }

    /// The number that is shown.
    pub fn code(self) -> (r: i16)
        ensures
            r == self.code_of(),
    {
        match self {
            TicketOpenBlock::Clear => 0,
            TicketOpenBlock::CurrentPuzzlePending => -1,
            TicketOpenBlock::PendingLimit => -2,
            TicketOpenBlock::Cooldown => -3,
            TicketOpenBlock::Disabled => -4,
            TicketOpenBlock::FeatureClosed => -5,
            TicketOpenBlock::FeatureExistingOnly => -6,
            TicketOpenBlock::TeamFeatureBanned => -7,
        }
    }
}

/// A ticket that is open.
#[derive(Debug)]
pub struct TicketOpenInfo {
    pub id: i32,
    pub puzzle_id: i32,
    pub puzzle_title: String,
}

/// The tickets of a team about a puzzle.
#[derive(Debug)]
pub struct TicketPuzzleList {
    pub open_block: TicketOpenBlock,
    pub cooldown_till: Option<Timestamp>,
    pub open_tickets: Vec<TicketOpenInfo>,
    pub tickets: Vec<TicketSummary>,
}

/// A message that may be there, as it is stored.
#[derive(Debug)]
pub struct OptionalMessageRow {
    pub id: Option<i32>,
    pub sender_id: Option<i32>,
    pub sender_nickname: Option<String>,
    pub sender_type: Option<i16>,
    pub cost_id: Option<i32>,
    pub cost_amount: Option<i64>,
    pub unlocked: Option<bool>,
    pub content: Option<String>,
    pub content_type: Option<i16>,
    pub ctime_at: Option<Timestamp>,
    pub utime_at: Option<Timestamp>,
}

impl OptionalMessageRow {
    /// Whether all that a message must have is there.
    pub open spec fn complete(self) -> bool {
        &&& self.id is Some
        &&& self.sender_id is Some
        &&& self.sender_nickname is Some
        &&& self.sender_type is Some
        &&& self.cost_amount is Some
        &&& self.unlocked is Some
        &&& self.ctime_at is Some
    }

    /// The message that a complete row holds.
    pub open spec fn message(self) -> TicketMessage {
        TicketMessage {
            id: self.id->0,
            sender: TicketAggreInfoUser {
                id: self.sender_id->0,
                nickname: self.sender_nickname->0,
                avatar: None,
                email: None,
            },
            sender_type: RbTicketSenderType::from_code(self.sender_type->0),
            cost_id: self.cost_id,
            cost_amount: self.cost_amount->0,
            unlocked: self.unlocked->0,
            content: self.content,
            content_type: match self.content_type {
                Some(code) => Some(RbContentType::from_code(code)),
                None => None,
            },
            ctime_at: self.ctime_at->0,
            utime_at: self.utime_at,
        }
    }
}

/// A message, where all that it must have is there.
pub fn make_message(row: OptionalMessageRow) -> (r: Option<TicketMessage>)
    ensures
        r == (if row.complete() {
            Some(row.message())
        } else {
            None
        }),
{
    let content_type: Option<RbContentType> = match row.content_type {
        Some(code) => Some(code.into()),
        None => None,
    };
    match (
        row.id,
        row.sender_id,
        row.sender_nickname,
        row.sender_type,
        row.cost_amount,
        row.unlocked,
        row.ctime_at,
    ) {
        (
            Some(id),
            Some(sender_id),
            Some(nickname),
            Some(sender_type),
            Some(cost_amount),
            Some(unlocked),
            Some(ctime_at),
        ) => Some(
            TicketMessage {
                id,
                sender: TicketAggreInfoUser {
                    id: sender_id,
                    nickname,
                    avatar: None,
                    email: None,
                },
                sender_type: sender_type.into(),
                cost_id: row.cost_id,
                cost_amount,
                unlocked,
                content: row.content,
                content_type,
                ctime_at,
                utime_at: row.utime_at,
            },
        ),
        _ => None,
    }
}

/// A puzzle that may be there, as it is stored with a ticket.
#[derive(Debug)]
pub struct OptionalPuzzleRow {
    pub id: Option<i32>,
    pub slug: Option<String>,
    pub title: Option<String>,
    pub state: Option<i16>,
    pub round_id: Option<i32>,
    pub round_slug: Option<String>,
    pub round_title: Option<String>,
}

/// The puzzle of a ticket, where all that it must have is there.
pub fn make_puzzle(row: OptionalPuzzleRow) -> (r: Option<TicketAggreInfoPuzzle>)
    ensures
        r == (match (row.id, row.title, row.state, row.round_id, row.round_title) {
            (Some(id), Some(title), Some(state), Some(round_id), Some(round_title)) => Some(
                TicketAggreInfoPuzzle {
                    id,
                    slug: row.slug,
                    title,
                    state: RbTeamPuzzleState::from_code(state),
                    round: RbRoundSimpleData {
                        id: round_id,
                        slug: row.round_slug,
                        title: round_title,
                        description: None,
                    },
                },
            ),
            _ => None,
        }),
{
    match (row.id, row.title, row.state, row.round_id, row.round_title) {
        (Some(id), Some(title), Some(state), Some(round_id), Some(round_title)) => Some(
            TicketAggreInfoPuzzle {
                id,
                slug: row.slug,
                title,
                state: state.into(),
                round: RbRoundSimpleData {
                    id: round_id,
                    slug: row.round_slug,
                    title: round_title,
                    description: None,
                },
            },
        ),
        _ => None,
    }
}

/// A user who may take care of a ticket, as they are stored.
#[derive(Debug)]
pub struct AssigneeRow {
    pub id: Option<i32>,
    pub nickname: Option<String>,
    pub email: Option<String>,
    pub avatar_provider: Option<i16>,
}

/// Whether a user is shown with their picture.
pub open spec fn shows_user(
    shown: TicketAggreInfoUser,
    id: i32,
    nickname: Seq<char>,
    email: Option<String>,
    provider: Option<i16>,
) -> bool {
    &&& shown.id == id
    &&& shown.nickname@ == nickname
    &&& judge::text_in(shown.avatar) == picture(judge::text_in(email), provider)
    &&& shown.email == email
}

/// Who takes care of a ticket, where the id and the name are known.
pub fn make_assignee(row: AssigneeRow) -> (r: Option<TicketAggreInfoUser>)
    ensures
        match (row.id, row.nickname) {
            (Some(id), Some(nickname)) => r matches Some(user) && shows_user(
                user,
                id,
                nickname@,
                row.email,
                row.avatar_provider,
            ),
            _ => r is None,
        },
{
    let avatar = user_avatar(&row.email, row.avatar_provider);
    match (row.id, row.nickname) {
        (Some(id), Some(nickname)) => Some(
            TicketAggreInfoUser { id, nickname, avatar, email: row.email },
        ),
        _ => None,
    }
}

/// A ticket, as it is stored.
#[derive(Debug)]
pub struct TicketRow {
    pub id: i32,
    pub state: i16,
    pub team_id: i32,
    pub team_name: String,
    pub team_state: i16,
    pub game_id: i32,
    pub puzzle: OptionalPuzzleRow,
    pub msg_count: Option<i64>,
    pub last_at: Option<Timestamp>,
    pub last_by: Option<i16>,
    pub assignee: AssigneeRow,
}

/// Whether a ticket is shown as it is stored, with its team and the team's balances where that is
/// asked for.
pub open spec fn summarises(
    shown: TicketSummary,
    row: TicketRow,
    include_team: bool,
    currency: Seq<RbCurrencyShowData>,
) -> bool {
    &&& shown.id == row.id
    &&& shown.state == RbTicketState::from_code(row.state)
    &&& shown.game_id == Some(row.game_id)
    &&& shown.team is Some <==> include_team
    &&& shown.team matches Some(team) ==> {
        &&& team.id == row.team_id
        &&& team.name == row.team_name
        &&& team.state == RbTeamState::from_code(row.team_state)
        &&& team.currency@ == currency
    }
    &&& shown.puzzle is Some <==> row.puzzle.id is Some && row.puzzle.title is Some
        && row.puzzle.state is Some && row.puzzle.round_id is Some && row.puzzle.round_title is Some
    &&& shown.puzzle matches Some(puzzle) ==> {
        &&& puzzle.id == row.puzzle.id->0
        &&& puzzle.slug == row.puzzle.slug
        &&& puzzle.title == row.puzzle.title->0
        &&& puzzle.state == RbTeamPuzzleState::from_code(row.puzzle.state->0)
        &&& puzzle.round.id == row.puzzle.round_id->0
        &&& puzzle.round.slug == row.puzzle.round_slug
        &&& puzzle.round.title == row.puzzle.round_title->0
    }
    &&& shown.msg_count == row.msg_count
    &&& shown.last_at == row.last_at
    &&& shown.last_by == (match row.last_by {
        Some(code) => Some(RbTicketSenderType::from_code(code)),
        None => None,
    })
    &&& match (row.assignee.id, row.assignee.nickname) {
        (Some(id), Some(nickname)) => shown.assignee matches Some(user) && shows_user(
            user,
            id,
            nickname@,
            row.assignee.email,
            row.assignee.avatar_provider,
        ),
        _ => shown.assignee is None,
    }
}

/// A ticket in a list, with its team where that is asked for.
pub fn get_ticket_summary(
    row: TicketRow,
    include_team: bool,
    currency: Vec<RbCurrencyShowData>,
) -> (r: TicketSummary)
    ensures
        summarises(r, row, include_team, currency@),
{
    let team = if include_team {
        Some(
            TicketAggreInfoTeam {
                id: row.team_id,
                name: row.team_name,
                state: row.team_state.into(),
                currency,
            },
        )
    } else {
        None
    };
    let last_by: Option<RbTicketSenderType> = match row.last_by {
        Some(code) => Some(code.into()),
        None => None,
    };
    TicketSummary {
        id: row.id,
        state: row.state.into(),
        game_id: Some(row.game_id),
        team,
        puzzle: make_puzzle(row.puzzle),
        msg_count: row.msg_count,
        last_at: row.last_at,
        last_by,
        assignee: make_assignee(row.assignee),
    }
}

/// What stands against sending a message in the team's own conversation with the staff, in which
/// three messages may wait for an answer.
pub fn dm_send_block(
    access: PlayerFeatureAccess,
    ticket: Option<RbTicketState>,
    pending: i64,
) -> (r: TicketSendBlock)
    ensures
        r == (match ticket {
            None => access.block_of(false),
            Some(state) => if !(access.block_of(true) is Clear) {
                access.block_of(true)
            } else {
                block_at(state, true, Some(3), pending)
            },
        }),
{
    match ticket {
        None => access.send_block(false),
        Some(state) => {
            let block = access.send_block(true);
            if block != TicketSendBlock::Clear {
                block
            } else {
                calc_send_block(state, true, Some(3), pending)
            }
        },
    }
}

/// What a user may do in the team's own conversation with the staff.
pub fn get_dm_ticket_thread(
    can_view_locked: bool,
    can_use_trusted_content: bool,
    send_block: TicketSendBlock,
) -> (r: TicketPerm)
    ensures
        r.send_block == send_block,
        r.can_host == can_view_locked,
        r.can_view_locked == can_view_locked,
        r.currency@ == Seq::<i32>::empty(),
        r.content_type@ == (if can_use_trusted_content {
            seq![RbContentType::Markdown, RbContentType::Html, RbContentType::UnsafeMarkdown]
        } else {
            seq![RbContentType::UnsafeMarkdown]
        }),
{
    TicketPerm::new(
        can_view_locked,
        can_view_locked,
        can_use_trusted_content,
        Vec::new(),
        send_block,
    )
}

/// What stands against sending a message to a ticket: a feature that is closed stops members of the
/// team, and one message may wait for an answer.
pub open spec fn thread_block(
    info: TicketUserInfo,
    access: PlayerFeatureAccess,
    state: RbTicketState,
    pending: i64,
) -> TicketSendBlock {
    if info.member_access && !(access.block_of(true) is Clear) {
        access.block_of(true)
    } else {
        block_at(state, info.member_access || info.mod_access, Some(1), pending)
    }
}

/// A thread, as a user sees it: who takes care of the ticket, and what the team owns, is shown to
/// the staff alone.
pub fn get_ticket_thread(
    ticket: TicketSummary,
    messages: Vec<TicketThreadItem>,
    history: TicketHistory,
    info: &TicketUserInfo,
    access: PlayerFeatureAccess,
    pending: i64,
) -> (r: TicketThread)
    ensures
        r.ticket == Some(
            if info.mod_access {
                ticket
            } else {
                TicketSummary { assignee: None, ..ticket }
            },
        ),
        r.messages == messages,
        r.history == history,
        r.perm.send_block == thread_block(*info, access, ticket.state, pending),
        r.perm.can_host == info.mod_access,
        r.perm.can_view_locked == info.mod_access,
        r.perm.content_type@ == (if info.admin_access {
            seq![RbContentType::Markdown, RbContentType::Html, RbContentType::UnsafeMarkdown]
        } else {
            seq![RbContentType::UnsafeMarkdown]
        }),
        r.perm.currency@ == (match ticket.team {
            Some(team) if info.mod_access => team.currency@.map_values(|c: RbCurrencyShowData| c.id),
            _ => Seq::empty(),
        }),
{
    let mut ticket = ticket;
    if !info.mod_access {
        ticket.hide_assignee();
    }
    let block = access.send_block(true);
    let send_block = if info.member_access && block != TicketSendBlock::Clear {
        block
    } else {
        calc_send_block(ticket.state, info.member_access || info.mod_access, Some(1), pending)
    };
    let currency = if info.mod_access {
        ticket.currency_ids()
    } else {
        Vec::new()
    };
    let perm = TicketPerm::new(
        info.mod_access,
        info.mod_access,
        info.admin_access,
        currency,
        send_block,
    );
    TicketThread { ticket: Some(ticket), messages, history, perm }
}

/// Whether somebody else takes care of a ticket, whom only force can replace.
pub open spec fn held_by_other(assignee: Option<i32>, user_id: i32, force: bool) -> bool {
    assignee matches Some(id) && id != user_id && !force
}

/// Who takes care of a ticket, as far as they are known.
fn holder(id: i32, row: AssigneeRow) -> (r: TicketAggreInfoUser)
    ensures
        shows_user(
            r,
            id,
            match row.nickname {
                Some(nickname) => nickname@,
                None => ""@,
            },
            row.email,
            row.avatar_provider,
        ),
{
    let avatar = user_avatar(&row.email, row.avatar_provider);
    let nickname = match row.nickname {
        Some(nickname) => nickname,
        None => "".to_owned(),
    };
    TicketAggreInfoUser { id, nickname, avatar, email: row.email }
}

/// How an attempt to take care of a ticket goes on.
#[derive(Debug)]
pub enum AssignTicketResult {
    /// The ticket is to be assigned.
    Assign,
    /// Somebody else takes care of it.
    Assigned(TicketAggreInfoUser),
    NotFound,
}

pub open spec fn nickname_of(row: AssigneeRow) -> Seq<char> {
    match row.nickname {
        Some(nickname) => nickname@,
        None => ""@,
    }
}

/// How an attempt to take care of a ticket goes on, given who takes care of it.
pub fn assign_ticket_self(current: Option<AssigneeRow>, user_id: i32, force: bool) -> (r:
    AssignTicketResult)
    ensures
        match current {
            None => r is NotFound,
            Some(row) => if held_by_other(row.id, user_id, force) {
                r matches AssignTicketResult::Assigned(user) && shows_user(
                    user,
                    row.id->0,
                    nickname_of(row),
                    row.email,
                    row.avatar_provider,
                )
            } else {
                r is Assign
            },
        },
{
    match current {
        None => AssignTicketResult::NotFound,
        Some(row) => match row.id {
            Some(id) => {
                if id != user_id && !force {
                    AssignTicketResult::Assigned(holder(id, row))
                } else {
                    AssignTicketResult::Assign
                }
            },
            None => AssignTicketResult::Assign,
        },
    }
}

/// A message that is to be sent.
#[derive(Debug)]
pub struct SendMessageData {
    pub content: String,
    pub content_type: RbContentType,
    pub sender_id: i32,
    pub sender_type: RbTicketSenderType,
    pub cost_id: Option<i32>,
    pub cost_amount: i64,
}

impl SendMessageData {
    /// Whether the message can be read at once: one that costs something must be bought.
    pub fn unlocked(&self) -> (r: bool)
        ensures
            r == self.cost_id is None,
    {
        self.cost_id.is_none()
    }

    /// Whether the team is notified, and the ticket assigned to its sender where nobody takes care
    /// of it: for messages of the staff.
    pub fn from_staff(&self) -> (r: bool)
        ensures
            r == self.sender_type is Host,
    {
        matches!(self.sender_type, RbTicketSenderType::Host)
    }
}

/// How an attempt to send a message goes on.
#[derive(Debug)]
pub enum SendTicketMessageResult {
    /// The message is to be stored.
    Send,
    Pending,
    Assigned(TicketAggreInfoUser),
}

/// Whether the messages that wait must be counted before a message is sent.
pub fn counts_pending(data: &SendMessageData, max_pending: Option<i64>) -> (r: bool)
    ensures
        r == (max_pending is Some && data.sender_type is Team),
{
    max_pending.is_some() && matches!(data.sender_type, RbTicketSenderType::Team)
}

/// Whether a message is sent.
pub open spec fn message_goes_out(
    sender_type: RbTicketSenderType,
    sender_id: i32,
    assignee: Option<i32>,
    max_pending: Option<i64>,
    pending: i64,
    force: bool,
) -> bool {
    &&& sender_type is Host ==> !held_by_other(assignee, sender_id, force)
    &&& sender_type is Team ==> (max_pending matches Some(max) ==> pending < max)
}

/// How an attempt to send a message goes on: a member of the staff does not write in a ticket that
/// another takes care of, unless by force, and a team waits for an answer.
pub fn send_ticket_message(
    assignee: AssigneeRow,
    data: &SendMessageData,
    max_pending: Option<i64>,
    pending: i64,
    force_assignee: bool,
) -> (r: SendTicketMessageResult)
    ensures
        if data.sender_type is Host && held_by_other(assignee.id, data.sender_id, force_assignee) {
            r matches SendTicketMessageResult::Assigned(user) && shows_user(
                user,
                assignee.id->0,
                nickname_of(assignee),
                assignee.email,
                assignee.avatar_provider,
            )
        } else if data.sender_type is Team && (max_pending matches Some(max) && pending >= max) {
            r is Pending
        } else {
            r is Send
        },
        r is Send <==> message_goes_out(
            data.sender_type,
            data.sender_id,
            assignee.id,
            max_pending,
            pending,
            force_assignee,
        ),
{
    if matches!(data.sender_type, RbTicketSenderType::Host) {
        if let Some(id) = assignee.id {
            if id != data.sender_id && !force_assignee {
                return SendTicketMessageResult::Assigned(holder(id, assignee));
            }
        }
    }
    if let Some(max) = max_pending {
        if matches!(data.sender_type, RbTicketSenderType::Team) {
            if pending >= max {
                return SendTicketMessageResult::Pending;
            }
        }
    }
    SendTicketMessageResult::Send
}

/// How an attempt to close a ticket goes on.
#[derive(Debug)]
pub enum CloseTicketResult {
    /// The ticket is to be closed.
    Close,
    Closed,
    Assigned(TicketAggreInfoUser),
}

/// A ticket that is to be closed, as it is stored.
#[derive(Debug)]
pub struct CloseTicketRow {
    pub team_id: i32,
    pub puzzle_id: Option<i32>,
    pub state: i16,
    pub game_id: i32,
    pub round_id: Option<i32>,
    pub puzzle_title: Option<String>,
}

/// Whether a ticket is closed by an attempt to do so.
pub open spec fn ticket_closes(
    info: Option<CloseTicketRow>,
    assignee: Option<i32>,
    actor_id: i32,
    actor_type: RbTicketSenderType,
    has_message: bool,
    force: bool,
) -> bool {
    &&& info matches Some(info)
    &&& info.state != RbTicketState::Closed.code_of()
    &&& has_message && actor_type is Host ==> !held_by_other(assignee, actor_id, force)
}

/// How an attempt to close a ticket goes on: what is not there counts as closed, and a member of the
/// staff does not add a message to a ticket that another takes care of, unless by force.
pub fn close_ticket(
    info: &Option<CloseTicketRow>,
    assignee: AssigneeRow,
    actor_id: i32,
    actor_type: RbTicketSenderType,
    has_message: bool,
    force_assignee: bool,
) -> (r: CloseTicketResult)
    ensures
        match *info {
            None => r is Closed,
            Some(info) => if info.state == RbTicketState::Closed.code_of() {
                r is Closed
            } else if has_message && actor_type is Host && held_by_other(
                assignee.id,
                actor_id,
                force_assignee,
            ) {
                r matches CloseTicketResult::Assigned(user) && shows_user(
                    user,
                    assignee.id->0,
                    nickname_of(assignee),
                    assignee.email,
                    assignee.avatar_provider,
                )
            } else {
                r is Close
            },
        },
        r is Close <==> ticket_closes(
            *info,
            assignee.id,
            actor_id,
            actor_type,
            has_message,
            force_assignee,
        ),
{
    match info {
        None => CloseTicketResult::Closed,
        Some(info) => {
            let closed: i16 = RbTicketState::Closed.into();
            if info.state == closed {
                return CloseTicketResult::Closed;
            }
            if has_message && matches!(actor_type, RbTicketSenderType::Host) {
                if let Some(id) = assignee.id {
                    if id != actor_id && !force_assignee {
                        return CloseTicketResult::Assigned(holder(id, assignee));
                    }
                }
            }
            CloseTicketResult::Close
        },
    }
}

/// The puzzle of a ticket, as its events show it.
pub open spec fn ticket_puzzle_json(id: Option<i32>, title: Option<Seq<char>>) -> J {
    json::object_of(seq![("id"@, json::opt_id_json(id)), ("title"@, json::opt_text_json(title))])
}

fn ticket_puzzle(id: Option<i32>, title: &Option<String>) -> (r: Json)
    ensures
        r@ == ticket_puzzle_json(id, judge::text_in(*title)),
{
    let shown = match title {
        Some(title) => Json::text(title.as_str()),
        None => Json::Null,
    };
    assert(shown@ == json::opt_text_json(judge::text_in(*title)));
    let fields = Fields::new().put("id", Json::opt_id(id)).put("title", shown);
    assert(fields.pairs() =~= seq![
        ("id"@, json::opt_id_json(id)),
        ("title"@, json::opt_text_json(judge::text_in(*title))),
    ]);
    fields.object()
}

/// The event of a ticket that has been closed.
pub fn ticket_closed(
    info: &CloseTicketRow,
    ticket_id: i32,
    actor_id: i32,
    actor_type: RbTicketSenderType,
) -> (r: EventLogInput)
    ensures
        r.is_team_event(
            "ticket.closed"@,
            (EventRefs {
                game_id: Some(info.game_id),
                team_id: Some(info.team_id),
                user_id: Some(actor_id),
                puzzle_id: info.puzzle_id,
                round_id: info.round_id,
                ticket_id: Some(ticket_id),
                ..event_log::no_refs()
            }),
            json::object_of(
                seq![
                    ("staff"@, J::Bool(actor_type is Host)),
                    ("ticket"@, event_log::id_json(ticket_id as int)),
                    ("puzzle"@, ticket_puzzle_json(info.puzzle_id, judge::text_in(info.puzzle_title))),
                ],
            ),
        ),
{
    let staff = matches!(actor_type, RbTicketSenderType::Host);
    let fields = Fields::new().put("staff", Json::Bool(staff)).put(
        "ticket",
        id_value(ticket_id),
    ).put("puzzle", ticket_puzzle(info.puzzle_id, &info.puzzle_title));
    assert(fields.pairs() =~= seq![
        ("staff"@, J::Bool(actor_type is Host)),
        ("ticket"@, event_log::id_json(ticket_id as int)),
        ("puzzle"@, ticket_puzzle_json(info.puzzle_id, judge::text_in(info.puzzle_title))),
    ]);
    let mut event = EventLogInput::team_activity("ticket.closed", fields.object());
    event.game_id = Some(info.game_id);
    event.team_id = Some(info.team_id);
    event.user_id = Some(actor_id);
    event.puzzle_id = info.puzzle_id;
    event.round_id = info.round_id;
    event.ticket_id = Some(ticket_id);
    event
}

/// What a locked message costs.
#[derive(Debug, Clone, Copy, PartialEq, Eq, Structural)]
pub struct LockedMessage {
    pub cost_id: Option<i32>,
    pub cost_amount: i64,
}

impl LockedMessage {
    /// Whether the message must be paid for.
    pub open spec fn charged(self, needs_pay: bool) -> bool {
        self.cost_id is Some && needs_pay
    }
}

/// What a team holds of the currency that a message costs, and the game that the currency is of.
#[derive(Debug, Clone, Copy, PartialEq, Eq, Structural)]
pub struct Purse {
    pub game_id: i32,
    pub balance: StoredBalance,
}

/// How an attempt to buy a message ends. A message that was paid for comes with the payment.
#[derive(Debug, Clone, Copy, PartialEq, Eq, Structural)]
pub enum MessagePurchase {
    Insufficient,
    Unavailable,
    Purchased(Option<Payment>),
}

/// Whether a message must be paid for.
pub fn message_is_charged(cost_id: Option<i32>, needs_pay: bool) -> (r: bool)
    ensures
        r == (cost_id is Some && needs_pay),
{
    cost_id.is_some() && needs_pay
}

/// The payment that leaves a purse: none where what it holds does not reach, or where the one who
/// pays plays the team's game no more, or another one than the currency is of.
pub open spec fn leaves_purse(
    payment: Option<Payment>,
    payer_game: Option<i32>,
    purse: Option<Purse>,
    now: Timestamp,
    price: i64,
) -> bool {
    match purse {
        Some(purse) => if payer_game == Some(purse.game_id) && (price <= 0 || growth::worth(
            purse.balance,
            now,
        ) >= price) {
            &&& payment matches Some(payment)
            &&& payment.before == growth::worth(purse.balance, now)
            &&& payment.after == growth::worth(purse.balance, now) - price
        } else {
            payment is None
        },
        None => payment is None,
    }
}

/// Whether neither what a purse is worth nor what would be left of it is too much to store.
pub open spec fn payable(
    payer_game: Option<i32>,
    purse: Option<Purse>,
    now: Timestamp,
    price: i64,
) -> bool {
    match purse {
        Some(purse) => payer_game == Some(purse.game_id) ==> {
            let held = growth::worth(purse.balance, now);
            &&& growth::fits(held)
            &&& growth::fits(held - price) || (price > 0 && held < price)
        },
        None => true,
    }
}

/// How an attempt to buy a message ends: the message must be there and not bought yet, and what
/// must be paid for is paid by one who plays for the team, out of what the team holds.
pub fn purchase_ticket_message(
    message: Option<LockedMessage>,
    needs_pay: bool,
    payer_game: Option<i32>,
    purse: Option<Purse>,
    now: Timestamp,
) -> (r: Result<MessagePurchase, RbInternalError>)
    ensures
        match message {
            Some(message) => if !message.charged(needs_pay) {
                r == Ok::<MessagePurchase, RbInternalError>(MessagePurchase::Purchased(None))
            } else if !payable(payer_game, purse, now, message.cost_amount) {
                r matches Err(e) && e.text() == "bigint out of range"@
            } else {
                match r {
                    Ok(MessagePurchase::Purchased(payment)) => {
                        &&& payment is Some
                        &&& leaves_purse(payment, payer_game, purse, now, message.cost_amount)
                    },
                    Ok(MessagePurchase::Insufficient) => leaves_purse(
                        None,
                        payer_game,
                        purse,
                        now,
                        message.cost_amount,
                    ),
                    _ => false,
                }
            },
            None => r == Ok::<MessagePurchase, RbInternalError>(MessagePurchase::Unavailable),
        },
{
    let message = match message {
        Some(message) => message,
        None => return Ok(MessagePurchase::Unavailable),
    };
    if !message_is_charged(message.cost_id, needs_pay) {
        return Ok(MessagePurchase::Purchased(None));
    }
    let purse = match (purse, payer_game) {
        (Some(purse), Some(game_id)) => if purse.game_id == game_id {
            purse
        } else {
            return Ok(MessagePurchase::Insufficient);
        },
        _ => return Ok(MessagePurchase::Insufficient),
    };
    match growth::charge_price(&purse.balance, now, message.cost_amount) {
        Ok(Some(payment)) => Ok(MessagePurchase::Purchased(Some(payment))),
        Ok(None) => Ok(MessagePurchase::Insufficient),
        Err(e) => Err(e),
    }
}

/// What costs something is bought by those alone who play for the team, and no message leaves a
/// team in debt.
pub proof fn bought_messages_are_paid_for(
    payment: Option<Payment>,
    payer_game: Option<i32>,
    purse: Option<Purse>,
    now: Timestamp,
    price: i64,
)
    requires
        price > 0,
        payment is Some,
        leaves_purse(payment, payer_game, purse, now, price),
    ensures
        payer_game is Some,
        purse is Some,
        purse->0.game_id == payer_game->0,
        payment->0.before - payment->0.after == price,
        payment->0.after >= 0,
{
}

/// A message that has been bought.
#[derive(Debug)]
pub struct SoldMessage {
    pub game_id: i32,
    pub team_id: i32,
    pub user_id: i32,
    pub puzzle_id: Option<i32>,
    pub round_id: Option<i32>,
    pub puzzle_title: Option<String>,
    pub ticket_id: i32,
    pub message_id: i32,
    pub cost_id: Option<i32>,
    pub cost_amount: i64,
}

/// The event of a message that has been bought, or unlocked by the staff.
pub fn message_purchased(
    sold: &SoldMessage,
    needs_pay: bool,
    currency: &Option<CurrencyEventData>,
) -> (r: EventLogInput)
    requires
        currency matches Some(c) ==> c.wf(),
    ensures
        r.is_team_event(
            "ticket.message_purchased"@,
            (EventRefs {
                game_id: Some(sold.game_id),
                team_id: Some(sold.team_id),
                user_id: Some(sold.user_id),
                puzzle_id: sold.puzzle_id,
                round_id: sold.round_id,
                ticket_id: Some(sold.ticket_id),
                currency_id: hint::charged_id(*currency),
                delta_amount: hint::charged_delta(*currency),
                ..event_log::no_refs()
            }),
            json::object_of(
                seq![
                    ("staff"@, J::Bool(!needs_pay)),
                    ("ticket"@, event_log::id_json(sold.ticket_id as int)),
                    ("message"@, event_log::id_json(sold.message_id as int)),
                    ("puzzle"@, ticket_puzzle_json(sold.puzzle_id, judge::text_in(sold.puzzle_title))),
                    (
                        "cost"@,
                        json::object_of(
                            seq![
                                ("currency_id"@, json::opt_id_json(sold.cost_id)),
                                ("amount"@, json::int_json(sold.cost_amount as int)),
                            ],
                        ),
                    ),
                    ("currency"@, hint::charged_json(*currency).0),
                    ("delta"@, hint::charged_json(*currency).1),
                    ("before"@, hint::charged_json(*currency).2),
                    ("after"@, hint::charged_json(*currency).3),
                ],
            ),
        ),
{
    let cost = Fields::new().put("currency_id", Json::opt_id(sold.cost_id)).put(
        "amount",
        Json::integer(sold.cost_amount),
    );
    assert(cost.pairs() =~= seq![
        ("currency_id"@, json::opt_id_json(sold.cost_id)),
        ("amount"@, json::int_json(sold.cost_amount as int)),
    ]);
    let ghost price = json::object_of(cost.pairs());
    let (shown, delta, before, after) = match currency {
        Some(c) => (
            c.currency_value(),
            Json::integer(c.delta()),
            Json::integer(c.before),
            Json::integer(c.after),
        ),
        None => (Json::Null, Json::Null, Json::Null, Json::Null),
    };
    let fields = Fields::new().put("staff", Json::Bool(!needs_pay)).put(
        "ticket",
        id_value(sold.ticket_id),
    ).put("message", id_value(sold.message_id)).put(
        "puzzle",
        ticket_puzzle(sold.puzzle_id, &sold.puzzle_title),
    ).put("cost", cost.object()).put("currency", shown).put("delta", delta).put(
        "before",
        before,
    ).put("after", after);
    assert(fields.pairs() =~= seq![
        ("staff"@, J::Bool(!needs_pay)),
        ("ticket"@, event_log::id_json(sold.ticket_id as int)),
        ("message"@, event_log::id_json(sold.message_id as int)),
        ("puzzle"@, ticket_puzzle_json(sold.puzzle_id, judge::text_in(sold.puzzle_title))),
        ("cost"@, price),
        ("currency"@, hint::charged_json(*currency).0),
        ("delta"@, hint::charged_json(*currency).1),
        ("before"@, hint::charged_json(*currency).2),
        ("after"@, hint::charged_json(*currency).3),
    ]);
    let mut event = EventLogInput::team_activity("ticket.message_purchased", fields.object());
    event.game_id = Some(sold.game_id);
    event.team_id = Some(sold.team_id);
    event.user_id = Some(sold.user_id);
    event.puzzle_id = sold.puzzle_id;
    event.round_id = sold.round_id;
    event.ticket_id = Some(sold.ticket_id);
    if let Some(c) = currency {
        event.currency_id = Some(c.id);
        event.delta_amount = Some(c.delta());
    }
    event
}

/// How an attempt to open a ticket about a puzzle goes on.
#[derive(Debug, Clone, Copy, PartialEq, Eq, Structural)]
pub enum OpenPuzzleTicketResult {
    /// The ticket is to be opened.
    Open,
    PendingExists,
    Cooldown,
    Disabled,
    FeatureClosed,
    FeatureExistingOnly,
    TeamFeatureBanned,
}

/// Whether a puzzle has tickets, as it is stored.
#[derive(Debug, Clone, Copy, PartialEq, Eq, Structural)]
pub struct TicketAvailability {
    pub ticket_enabled: bool,
    pub cooldown_ready: Option<bool>,
}

/// What stands against a new ticket of a player, of how far the feature is open.
pub open spec fn open_refusal(access: PlayerFeatureAccess) -> Option<OpenPuzzleTicketResult> {
    match access {
        PlayerFeatureAccess::Open => None,
        PlayerFeatureAccess::ExistingOnly => Some(OpenPuzzleTicketResult::FeatureExistingOnly),
        PlayerFeatureAccess::GameClosed => Some(OpenPuzzleTicketResult::FeatureClosed),
        PlayerFeatureAccess::TeamFeatureBanned => Some(OpenPuzzleTicketResult::TeamFeatureBanned),
    }
}

/// What the attempt to open a ticket of a puzzle comes to.
pub open spec fn opening_comes_to(
    pending: bool,
    availability: Option<TicketAvailability>,
    sender_type: RbTicketSenderType,
    access: PlayerFeatureAccess,
) -> OpenPuzzleTicketResult {
    if pending {
        OpenPuzzleTicketResult::PendingExists
    } else {
        match availability {
            None => OpenPuzzleTicketResult::Disabled,
            Some(a) => if sender_type is Team && open_refusal(access) is Some {
                open_refusal(access)->0
            } else if !a.ticket_enabled {
                OpenPuzzleTicketResult::Disabled
            } else if a.cooldown_ready != Some(true) {
                OpenPuzzleTicketResult::Cooldown
            } else {
                OpenPuzzleTicketResult::Open
            },
        }
    }
}

/// How an attempt to open a ticket about a puzzle goes on. A team has one open ticket at a time; the
/// staff are not held to how far the feature is open.
pub fn open_puzzle_ticket(
    pending: bool,
    availability: Option<TicketAvailability>,
    sender_type: RbTicketSenderType,
    access: PlayerFeatureAccess,
) -> (r: OpenPuzzleTicketResult)
    ensures
        r == opening_comes_to(pending, availability, sender_type, access),
{
    if pending {
        return OpenPuzzleTicketResult::PendingExists;
    }
    match availability {
        None => OpenPuzzleTicketResult::Disabled,
        Some(a) => {
            if matches!(sender_type, RbTicketSenderType::Team) {
                match access {
                    PlayerFeatureAccess::Open => {},
                    PlayerFeatureAccess::ExistingOnly => {
                        return OpenPuzzleTicketResult::FeatureExistingOnly;
                    },
                    PlayerFeatureAccess::GameClosed => {
                        return OpenPuzzleTicketResult::FeatureClosed;
                    },
                    PlayerFeatureAccess::TeamFeatureBanned => {
                        return OpenPuzzleTicketResult::TeamFeatureBanned;
                    },
                }
            }
            if !a.ticket_enabled {
                return OpenPuzzleTicketResult::Disabled;
            }
            match a.cooldown_ready {
                Some(true) => OpenPuzzleTicketResult::Open,
                _ => OpenPuzzleTicketResult::Cooldown,
            }
        },
    }
}

/// What the one who has opened a ticket may do with it.
pub fn opener_info(ticket_id: i32, sender_type: RbTicketSenderType) -> (r: TicketUserInfo)
    ensures
        r == (TicketUserInfo {
            ticket_id,
            state: RbTicketState::Open,
            member_access: sender_type is Team,
            mod_access: sender_type is Host,
            admin_access: false,
        }),
{
    TicketUserInfo {
        ticket_id,
        state: RbTicketState::Open,
        member_access: matches!(sender_type, RbTicketSenderType::Team),
        mod_access: matches!(sender_type, RbTicketSenderType::Host),
        admin_access: false,
    }
}

/// The event of a ticket that has been opened.
pub fn ticket_opened(
    game_id: i32,
    team_id: i32,
    user_id: i32,
    puzzle_id: i32,
    round_id: i32,
    ticket_id: i32,
    puzzle_title: &str,
) -> (r: EventLogInput)
    ensures
        r.is_team_event(
            "ticket.opened"@,
            (EventRefs {
                game_id: Some(game_id),
                team_id: Some(team_id),
                user_id: Some(user_id),
                puzzle_id: Some(puzzle_id),
                round_id: Some(round_id),
                ticket_id: Some(ticket_id),
                ..event_log::no_refs()
            }),
            json::object_of(
                seq![
                    ("ticket"@, event_log::id_json(ticket_id as int)),
                    ("puzzle"@, event_log::puzzle_json(puzzle_id as int, puzzle_title@)),
                ],
            ),
        ),
{
    let fields = Fields::new().put("ticket", id_value(ticket_id)).put(
        "puzzle",
        event_log::puzzle_value(puzzle_id, puzzle_title),
    );
    assert(fields.pairs() =~= seq![
        ("ticket"@, event_log::id_json(ticket_id as int)),
        ("puzzle"@, event_log::puzzle_json(puzzle_id as int, puzzle_title@)),
    ]);
    let mut event = EventLogInput::team_activity("ticket.opened", fields.object());
    event.game_id = Some(game_id);
    event.team_id = Some(team_id);
    event.user_id = Some(user_id);
    event.puzzle_id = Some(puzzle_id);
    event.round_id = Some(round_id);
    event.ticket_id = Some(ticket_id);
    event
}

/// When a puzzle has tickets, as it is stored.
#[derive(Debug, Clone, Copy, PartialEq, Eq, Structural)]
pub struct TicketCooldownRow {
    pub ticket_enabled: Option<bool>,
    pub ready: Option<bool>,
    pub cooldown_till: Option<Timestamp>,
}

/// What stands against opening a ticket about a puzzle, in the order in which it is told.
pub open spec fn open_block_of(
    open_puzzles: Seq<i32>,
    puzzle_id: i32,
    cooldown: TicketCooldownRow,
    access: PlayerFeatureAccess,
    feature_exempt: bool,
) -> TicketOpenBlock {
    if !feature_exempt && access is TeamFeatureBanned {
        TicketOpenBlock::TeamFeatureBanned
    } else if !feature_exempt && access is GameClosed {
        TicketOpenBlock::FeatureClosed
    } else if !feature_exempt && access is ExistingOnly {
        TicketOpenBlock::FeatureExistingOnly
    } else if open_puzzles.contains(puzzle_id) {
        TicketOpenBlock::CurrentPuzzlePending
    } else if cooldown.ticket_enabled != Some(true) {
        TicketOpenBlock::Disabled
    } else if cooldown.ready != Some(true) {
        TicketOpenBlock::Cooldown
    } else if open_puzzles.len() > 0 {
        TicketOpenBlock::PendingLimit
    } else {
        TicketOpenBlock::Clear
    }
}

/// The puzzles that open tickets are about.
pub open spec fn puzzles_of(open_tickets: Seq<TicketOpenInfo>) -> Seq<i32> {
    open_tickets.map_values(|t: TicketOpenInfo| t.puzzle_id)
}

fn any_about(open_tickets: &Vec<TicketOpenInfo>, puzzle_id: i32) -> (r: bool)
    ensures
        r == puzzles_of(open_tickets@).contains(puzzle_id),
{
    let mut i: usize = 0;
    while i < open_tickets.len()
        invariant
            i <= open_tickets@.len(),
            forall|k: int| 0 <= k < i ==> (#[trigger] open_tickets@[k]).puzzle_id != puzzle_id,
        decreases open_tickets@.len() - i,
    {
        if open_tickets[i].puzzle_id == puzzle_id {
            assert(puzzles_of(open_tickets@)[i as int] == puzzle_id);
            return true;
        }
        i += 1;
    }
    assert forall|k: int| 0 <= k < puzzles_of(open_tickets@).len() implies puzzles_of(
        open_tickets@,
    )[k] != puzzle_id by {
        assert(open_tickets@[k].puzzle_id != puzzle_id);
    }
    false
}

fn is_true(value: Option<bool>) -> (r: bool)
    ensures
        r == (value == Some(true)),
{
    match value {
        Some(value) => value,
        None => false,
    }
}

/// The tickets of a team about a puzzle. When a new one may be opened is told only where the team
/// must wait, and which tickets are open only where these stand against a new one.
pub fn get_team_puzzle_tickets(
    tickets: Vec<TicketSummary>,
    open_tickets: Vec<TicketOpenInfo>,
    puzzle_id: i32,
    cooldown: TicketCooldownRow,
    access: PlayerFeatureAccess,
    feature_exempt: bool,
) -> (r: TicketPuzzleList)
    ensures
        r.open_block == open_block_of(
            puzzles_of(open_tickets@),
            puzzle_id,
            cooldown,
            access,
            feature_exempt,
        ),
        r.cooldown_till == (if r.open_block is Cooldown {
            cooldown.cooldown_till
        } else {
            None
        }),
        r.open_tickets@ == (if r.open_block is PendingLimit {
            open_tickets@
        } else {
            Seq::empty()
        }),
        r.tickets == tickets,
{
    let has_current = any_about(&open_tickets, puzzle_id);
    let open_block = if !feature_exempt && access == PlayerFeatureAccess::TeamFeatureBanned {
        TicketOpenBlock::TeamFeatureBanned
    } else if !feature_exempt && access == PlayerFeatureAccess::GameClosed {
        TicketOpenBlock::FeatureClosed
    } else if !feature_exempt && access == PlayerFeatureAccess::ExistingOnly {
        TicketOpenBlock::FeatureExistingOnly
    } else if has_current {
        TicketOpenBlock::CurrentPuzzlePending
    } else if !is_true(cooldown.ticket_enabled) {
        TicketOpenBlock::Disabled
    } else if !is_true(cooldown.ready) {
        TicketOpenBlock::Cooldown
    } else if open_tickets.len() > 0 {
        TicketOpenBlock::PendingLimit
    } else {
        TicketOpenBlock::Clear
    };
    let cooldown_till = if open_block == TicketOpenBlock::Cooldown {
        cooldown.cooldown_till
    } else {
        None
    };
    let shown = if open_block == TicketOpenBlock::PendingLimit {
        open_tickets
    } else {
        Vec::new()
    };
    TicketPuzzleList { open_block, cooldown_till, open_tickets: shown, tickets }
}

/// A ticket that the list calls free to open is not refused when it is opened, as long as nothing
/// has changed and the feature is open to the team.
pub proof fn what_is_free_to_open_opens(
    open_puzzles: Seq<i32>,
    puzzle_id: i32,
    cooldown: TicketCooldownRow,
    access: PlayerFeatureAccess,
)
    requires
        open_block_of(open_puzzles, puzzle_id, cooldown, access, false) is Clear,
    ensures
        open_puzzles.len() == 0,
        open_refusal(access) is None,
        cooldown.ticket_enabled == Some(true),
        cooldown.ready == Some(true),
{
}

/// What a summary tells of a ticket, point by point. The team is told only where it is asked for, the
/// puzzle only where the ticket has one that is stored in full, and nobody is named as taking care of
/// a ticket that nobody has taken.
pub proof fn summaries_tell_what_is_stored(
    shown: TicketSummary,
    row: TicketRow,
    include_team: bool,
    currency: Seq<RbCurrencyShowData>,
)
    requires
        summarises(shown, row, include_team, currency),
    ensures
        shown.id == row.id,
        shown.game_id == Some(row.game_id),
        shown.msg_count == row.msg_count,
        shown.last_at == row.last_at,
        shown.state == RbTicketState::Closed <==> row.state == RbTicketState::Closed.code_of(),
        shown.last_by is Some <==> row.last_by is Some,
        row.last_by == Some(0i16) ==> shown.last_by == Some(RbTicketSenderType::Team),
        row.last_by == Some(1i16) ==> shown.last_by == Some(RbTicketSenderType::Host),
        shown.team is Some <==> include_team,
        shown.team matches Some(team) ==> team.id == row.team_id && team.name@ == row.team_name@
            && team.currency@ == currency,
        row.puzzle.id is None ==> shown.puzzle is None,
        shown.puzzle matches Some(puzzle) ==> row.puzzle.id == Some(puzzle.id) && row.puzzle.slug
            == puzzle.slug && row.puzzle.title == Some(puzzle.title) && row.puzzle.round_id == Some(
            puzzle.round.id,
        ) && row.puzzle.round_slug == puzzle.round.slug && row.puzzle.round_title == Some(
            puzzle.round.title,
        ),
        row.puzzle.id is Some && row.puzzle.title is Some && row.puzzle.state is Some
            && row.puzzle.round_id is Some && row.puzzle.round_title is Some ==> shown.puzzle is Some,
        row.assignee.id is None ==> shown.assignee is None,
        row.assignee.id is Some && row.assignee.nickname is Some ==> shown.assignee is Some,
        shown.assignee matches Some(user) ==> row.assignee.id == Some(user.id)
            && row.assignee.nickname is Some && row.assignee.nickname->0@ == user.nickname@
            && user.email == row.assignee.email && (user.avatar is Some <==> user.email is Some),
{
}

/// A message tells what is stored of it.
pub proof fn messages_tell_what_is_stored(row: OptionalMessageRow)
    requires
        row.complete(),
    ensures
        ({
            let shown = row.message();
            &&& row.id == Some(shown.id)
            &&& row.sender_id == Some(shown.sender.id)
            &&& row.sender_nickname == Some(shown.sender.nickname)
            &&& shown.sender.avatar is None && shown.sender.email is None
            &&& row.sender_type == Some(0i16) ==> shown.sender_type == RbTicketSenderType::Team
            &&& row.sender_type == Some(1i16) ==> shown.sender_type == RbTicketSenderType::Host
            &&& shown.cost_id == row.cost_id
            &&& row.cost_amount == Some(shown.cost_amount)
            &&& row.unlocked == Some(shown.unlocked)
            &&& shown.content == row.content
            &&& shown.content_type is Some <==> row.content_type is Some
            &&& row.ctime_at == Some(shown.ctime_at)
            &&& shown.utime_at == row.utime_at
        }),
{
}

/// A message that lacks any part that each message has is none.
pub proof fn messages_are_complete(row: OptionalMessageRow)
    ensures
        row.complete() <==> !(row.id is None || row.sender_id is None || row.sender_nickname is None
            || row.sender_type is None || row.cost_amount is None || row.unlocked is None
            || row.ctime_at is None),
{
}

/// Nothing keeps a reader from writing in a ticket exactly where the ticket is not closed, the reader
/// is a member or looks after the game, fewer than one message waits for an answer, and, for members,
/// writing is open or open for tickets that are there.
pub proof fn writing_is_free(
    info: TicketUserInfo,
    access: PlayerFeatureAccess,
    state: RbTicketState,
    pending: i64,
)
    ensures
        ({
            let block = thread_block(info, access, state, pending);
            let stopped = info.member_access && (access == PlayerFeatureAccess::GameClosed || access
                == PlayerFeatureAccess::TeamFeatureBanned);
            &&& block == TicketSendBlock::Clear <==> !stopped && (info.member_access
                || info.mod_access) && state != RbTicketState::Closed && pending < 1
            &&& block == TicketSendBlock::TeamFeatureBanned <==> info.member_access && access
                == PlayerFeatureAccess::TeamFeatureBanned
            &&& block == TicketSendBlock::FeatureClosed <==> info.member_access && access
                == PlayerFeatureAccess::GameClosed
            &&& block == TicketSendBlock::NoAccess <==> !info.member_access && !info.mod_access
            &&& block == TicketSendBlock::Closed <==> !stopped && (info.member_access
                || info.mod_access) && state == RbTicketState::Closed
            &&& block == TicketSendBlock::Pending <==> !stopped && (info.member_access
                || info.mod_access) && state != RbTicketState::Closed && pending >= 1
            &&& block != TicketSendBlock::FeatureExistingOnly
        }),
{
}

/// Where no number of messages is too many, none waits too long; where there is a limit, the messages
/// that wait must stay below it.
pub proof fn limits_stop_those_who_wait(
    state: RbTicketState,
    can_send: bool,
    max: i64,
    pending: i64,
)
    ensures
        block_at(state, can_send, None, pending) != TicketSendBlock::Pending,
        block_at(state, can_send, Some(max), pending) == TicketSendBlock::Clear <==> can_send && state
            != RbTicketState::Closed && pending < max,
        block_at(state, can_send, None, pending) == TicketSendBlock::Clear <==> can_send && state
            != RbTicketState::Closed,
        !can_send ==> block_at(state, can_send, Some(max), pending) == TicketSendBlock::NoAccess,
        can_send && state == RbTicketState::Closed ==> block_at(state, can_send, Some(max), pending)
            == TicketSendBlock::Closed,
{
}

/// A feature that is open stops nobody; one that is open for what is there stops those who have
/// nothing there; one that is closed or taken from a team stops all, and each is told why.
pub proof fn features_stop_players(access: PlayerFeatureAccess, has_existing: bool)
    ensures
        access.block_of(has_existing) == TicketSendBlock::Clear <==> access
            == PlayerFeatureAccess::Open || (access == PlayerFeatureAccess::ExistingOnly
            && has_existing),
        access.block_of(has_existing) == TicketSendBlock::FeatureExistingOnly <==> access
            == PlayerFeatureAccess::ExistingOnly && !has_existing,
        access.block_of(has_existing) == TicketSendBlock::FeatureClosed <==> access
            == PlayerFeatureAccess::GameClosed,
        access.block_of(has_existing) == TicketSendBlock::TeamFeatureBanned <==> access
            == PlayerFeatureAccess::TeamFeatureBanned,
        open_refusal(access) is None <==> access == PlayerFeatureAccess::Open,
        open_refusal(access) == Some(OpenPuzzleTicketResult::FeatureExistingOnly) <==> access
            == PlayerFeatureAccess::ExistingOnly,
        open_refusal(access) == Some(OpenPuzzleTicketResult::FeatureClosed) <==> access
            == PlayerFeatureAccess::GameClosed,
        open_refusal(access) == Some(OpenPuzzleTicketResult::TeamFeatureBanned) <==> access
            == PlayerFeatureAccess::TeamFeatureBanned,
{
}

/// How far a feature is open is stored as a number: two means that it is open, one that it is open
/// for what is there, minus two that it was taken from the team, and any other that it is closed.
pub proof fn access_is_stored_as_numbers(value: i16)
    ensures
        PlayerFeatureAccess::of_value(value) == PlayerFeatureAccess::Open <==> value == 2,
        PlayerFeatureAccess::of_value(value) == PlayerFeatureAccess::ExistingOnly <==> value == 1,
        PlayerFeatureAccess::of_value(value) == PlayerFeatureAccess::TeamFeatureBanned <==> value
            == -2,
        PlayerFeatureAccess::of_value(value) == PlayerFeatureAccess::GameClosed <==> value != 2
            && value != 1 && value != -2,
{
}

/// Actions come back from the numbers that they are stored as, unlike actions have unlike numbers, and
/// so have messages and operations, and the reasons that stop players.
pub proof fn ticket_codes_tell_apart(
    a: TicketOperationAction,
    b: TicketOperationAction,
    s: TicketSendBlock,
    t: TicketSendBlock,
    o: TicketOpenBlock,
    p: TicketOpenBlock,
)
    ensures
        TicketOperationAction::from_code(a.code_of()) == a,
        a.code_of() == b.code_of() ==> a == b,
        s.code_of() == t.code_of() ==> s == t,
        o.code_of() == p.code_of() ==> o == p,
        s.code_of() <= 0,
        s.code_of() == 0 <==> s == TicketSendBlock::Clear,
        o.code_of() <= 0,
        o.code_of() == 0 <==> o == TicketOpenBlock::Clear,
        TicketThreadItemType::Message.code_of() != TicketThreadItemType::Operation.code_of(),
{
}

/// Nothing keeps a team from opening a ticket exactly where the feature is open to it or it is exempt,
/// no ticket of it is open, the puzzle has tickets, and the wait is over. Where something does, the
/// feature is told first, then a ticket of the same puzzle, then that the puzzle has none, then the
/// wait, then tickets of other puzzles.
pub proof fn opening_is_free(
    open_puzzles: Seq<i32>,
    puzzle_id: i32,
    cooldown: TicketCooldownRow,
    access: PlayerFeatureAccess,
    feature_exempt: bool,
)
    ensures
        ({
            let block = open_block_of(open_puzzles, puzzle_id, cooldown, access, feature_exempt);
            let free = feature_exempt || access == PlayerFeatureAccess::Open;
            let here = exists|i: int| 0 <= i < open_puzzles.len() && open_puzzles[i] == puzzle_id;
            let offered = cooldown.ticket_enabled == Some(true);
            let ready = cooldown.ready == Some(true);
            &&& block == TicketOpenBlock::Clear <==> free && open_puzzles.len() == 0 && offered
                && ready
            &&& block == TicketOpenBlock::TeamFeatureBanned <==> !feature_exempt && access
                == PlayerFeatureAccess::TeamFeatureBanned
            &&& block == TicketOpenBlock::FeatureClosed <==> !feature_exempt && access
                == PlayerFeatureAccess::GameClosed
            &&& block == TicketOpenBlock::FeatureExistingOnly <==> !feature_exempt && access
                == PlayerFeatureAccess::ExistingOnly
            &&& block == TicketOpenBlock::CurrentPuzzlePending <==> free && here
            &&& block == TicketOpenBlock::Disabled <==> free && !here && !offered
            &&& block == TicketOpenBlock::Cooldown <==> free && !here && offered && !ready
            &&& block == TicketOpenBlock::PendingLimit <==> free && !here && offered && ready
                && open_puzzles.len() > 0
        }),
{
}

/// The puzzles of the open tickets are those that the tickets name.
pub proof fn open_tickets_name_their_puzzles(open_tickets: Seq<TicketOpenInfo>, puzzle_id: i32)
    ensures
        puzzles_of(open_tickets).len() == open_tickets.len(),
        puzzles_of(open_tickets).contains(puzzle_id) <==> exists|i: int|
            0 <= i < open_tickets.len() && (#[trigger] open_tickets[i]).puzzle_id == puzzle_id,
{
    let named = puzzles_of(open_tickets);
    if exists|i: int| 0 <= i < open_tickets.len() && (#[trigger] open_tickets[i]).puzzle_id
        == puzzle_id {
        let i = choose|i: int|
            0 <= i < open_tickets.len() && (#[trigger] open_tickets[i]).puzzle_id == puzzle_id;
        assert(named[i] == puzzle_id);
    }
    if named.contains(puzzle_id) {
        let i = choose|i: int| 0 <= i < named.len() && named[i] == puzzle_id;
        assert(open_tickets[i].puzzle_id == puzzle_id);
    }
}

/// Whoever has taken a ticket keeps it from others, unless they insist; nobody is kept from a ticket
/// of their own or from one that nobody has taken.
pub proof fn taken_tickets_are_kept(assignee: Option<i32>, user_id: i32, force: bool)
    ensures
        !held_by_other(None, user_id, force),
        !held_by_other(Some(user_id), user_id, force),
        !held_by_other(assignee, user_id, true),
        held_by_other(assignee, user_id, false) <==> assignee is Some && assignee != Some(user_id),
{
}

/// A message is paid for exactly where it has a price in some currency and the reader must pay.
pub proof fn priced_messages_are_charged(message: LockedMessage)
    ensures
        !message.charged(false),
        message.charged(true) <==> message.cost_id is Some,
{
}

/// A purse pays exactly where it belongs to the payer's game and holds the price; then what it held
/// falls by the price.
pub proof fn purses_pay_in_their_game(
    payment: Option<Payment>,
    payer_game: Option<i32>,
    purse: Purse,
    now: Timestamp,
    price: i64,
)
    requires
        leaves_purse(payment, payer_game, Some(purse), now, price),
    ensures
        payment is Some <==> payer_game == Some(purse.game_id) && (price <= 0 || growth::worth(
            purse.balance,
            now,
        ) >= price),
        payment matches Some(paid) ==> paid.before == growth::worth(purse.balance, now) && paid.after
            == paid.before - price,
        leaves_purse(None, payer_game, None, now, price),
{
}

/// Whoever takes care of a ticket is named by what is stored, and by nothing where no name is stored;
/// readers have a picture exactly where their address is known.
pub proof fn users_are_named(row: AssigneeRow, email: Option<Seq<char>>, provider: Option<i16>)
    ensures
        row.nickname is None ==> nickname_of(row).len() == 0,
        row.nickname matches Some(name) ==> nickname_of(row) == name@,
        picture(email, provider) is Some <==> email is Some,
        picture(email, None) == picture(email, Some(0i16)),
{
    reveal_strlit("");
}

/// Messages and operations stand in a thread by their own time and number.
pub proof fn items_keep_their_time(message: TicketMessage, operation: TicketOperation)
    ensures
        TicketThreadItem::Message(message).time() == message.ctime_at,
        TicketThreadItem::Operation(operation).time() == operation.ctime_at,
        TicketThreadItem::Message(message).number() == message.id,
        TicketThreadItem::Operation(operation).number() == operation.id,
{
}

/// The puzzle of a ticket is shown by its number and its title, each null where it has none.
pub proof fn puzzles_of_tickets_are_shown(id: Option<i32>, title: Option<Seq<char>>)
    ensures
        ticket_puzzle_json(id, title) is Object,
        ticket_puzzle_json(id, title)->Object_0.dom().contains("id"@),
        ticket_puzzle_json(id, title)->Object_0["id"@] == json::opt_id_json(id),
        ticket_puzzle_json(id, title)->Object_0.dom().contains("title"@),
        ticket_puzzle_json(id, title)->Object_0["title"@] == json::opt_text_json(title),
{
    reveal_strlit("id");
    reveal_strlit("title");
    assert("id"@.len() == 2 && "title"@.len() == 5);
    let pairs = seq![
        ("id"@, json::opt_id_json(id)),
        ("title"@, json::opt_text_json(title)),
    ];
    json::keys_hold_their_values(pairs, 0);
    json::keys_hold_their_values(pairs, 1);
}

/// A price can be worked with where the balance and what is left of it fit, or where the balance does
/// not hold the price.
pub proof fn prices_can_be_worked_with(
    payer_game: Option<i32>,
    purse: Purse,
    now: Timestamp,
    price: i64,
)
    ensures
        payable(payer_game, None, now, price),
        payer_game != Some(purse.game_id) ==> payable(payer_game, Some(purse), now, price),
        payer_game == Some(purse.game_id) ==> (payable(payer_game, Some(purse), now, price) <==> {
            let held = growth::worth(purse.balance, now);
            i64::MIN <= held <= i64::MAX && (i64::MIN <= held - price <= i64::MAX || 0 < price && held
                < price)
        }),
{
}

/// A ticket opens exactly where none is pending, the puzzle has tickets and the wait is over, and, for
/// teams, the feature is open. A pending ticket is told first, then a puzzle that is not released,
/// then the feature, then a puzzle without tickets, then the wait.
pub proof fn tickets_open_to_who_may(
    pending: bool,
    availability: Option<TicketAvailability>,
    sender_type: RbTicketSenderType,
    access: PlayerFeatureAccess,
)
    ensures
        ({
            let end = opening_comes_to(pending, availability, sender_type, access);
            let free = sender_type != RbTicketSenderType::Team || access == PlayerFeatureAccess::Open;
            let there = !pending && availability is Some;
            &&& end == OpenPuzzleTicketResult::PendingExists <==> pending
            &&& end == OpenPuzzleTicketResult::Open <==> there && free
                && availability->0.ticket_enabled && availability->0.cooldown_ready == Some(true)
            &&& end == OpenPuzzleTicketResult::Cooldown <==> there && free
                && availability->0.ticket_enabled && availability->0.cooldown_ready != Some(true)
            &&& end == OpenPuzzleTicketResult::Disabled <==> !pending && (availability is None || (
            free && !availability->0.ticket_enabled))
            &&& end == OpenPuzzleTicketResult::TeamFeatureBanned <==> there && sender_type
                == RbTicketSenderType::Team && access == PlayerFeatureAccess::TeamFeatureBanned
            &&& end == OpenPuzzleTicketResult::FeatureClosed <==> there && sender_type
                == RbTicketSenderType::Team && access == PlayerFeatureAccess::GameClosed
            &&& end == OpenPuzzleTicketResult::FeatureExistingOnly <==> there && sender_type
                == RbTicketSenderType::Team && access == PlayerFeatureAccess::ExistingOnly
        }),
{
}

/// What teams send goes out while fewer messages wait than may, and what hosts send goes out unless
/// another host has taken the ticket and is not passed over; neither limit binds the other side.
pub proof fn messages_go_out(
    sender_id: i32,
    assignee: Option<i32>,
    max_pending: Option<i64>,
    pending: i64,
    force: bool,
)
    ensures
        message_goes_out(
            RbTicketSenderType::Team,
            sender_id,
            assignee,
            max_pending,
            pending,
            force,
        ) <==> max_pending is None || pending < max_pending->0,
        message_goes_out(
            RbTicketSenderType::Host,
            sender_id,
            assignee,
            max_pending,
            pending,
            force,
        ) <==> assignee is None || assignee == Some(sender_id) || force,
{
}

/// A ticket is closed exactly where it is there and not closed, and nobody else has taken it whom a
/// host who closes it with a message would pass over without saying so.
pub proof fn open_tickets_close(
    info: CloseTicketRow,
    assignee: Option<i32>,
    actor_id: i32,
    actor_type: RbTicketSenderType,
    has_message: bool,
    force: bool,
)
    ensures
        !ticket_closes(None, assignee, actor_id, actor_type, has_message, force),
        info.state == 0 ==> !ticket_closes(
            Some(info),
            assignee,
            actor_id,
            actor_type,
            has_message,
            force,
        ),
        info.state != 0 && (!has_message || actor_type != RbTicketSenderType::Host || assignee is None
            || assignee == Some(actor_id) || force) ==> ticket_closes(
            Some(info),
            assignee,
            actor_id,
            actor_type,
            has_message,
            force,
        ),
        has_message && actor_type == RbTicketSenderType::Host && assignee is Some && assignee
            != Some(actor_id) && !force ==> !ticket_closes(
            Some(info),
            assignee,
            actor_id,
            actor_type,
            has_message,
            force,
        ),
{
}

} // verus!
