//! Messages, and who may read them.
use vstd::prelude::*;

use crate::clock::Timestamp;
use crate::db::ticket::{
    make_message, OptionalMessageRow, SendMessageData, TicketAggreInfoUser, TicketMessage,
    TicketOperation, TicketOperationAction, TicketThreadItem,
};
use crate::model::game::RbTicketSenderType;

verus! {

impl OptionalMessageRow {
    /// The message as it is told: what it says is left out of one that is locked, except to those
    /// who may read locked messages.
    pub open spec fn told(self, can_view_locked: bool) -> OptionalMessageRow {
        if can_view_locked || self.unlocked == Some(true) {
            self
        } else {
            OptionalMessageRow { content: None, content_type: None, ..self }
        }
    }
}

fn tell(row: OptionalMessageRow, can_view_locked: bool) -> (r: OptionalMessageRow)
    ensures
        r == row.told(can_view_locked),
{
    let unlocked = match row.unlocked {
        Some(unlocked) => unlocked,
        None => false,
    };
    if can_view_locked || unlocked {
        return row;
    }
    OptionalMessageRow {
        id: row.id,
        sender_id: row.sender_id,
        sender_nickname: row.sender_nickname,
        sender_type: row.sender_type,
        cost_id: row.cost_id,
        cost_amount: row.cost_amount,
        unlocked: row.unlocked,
        content: None,
        content_type: None,
        ctime_at: row.ctime_at,
        utime_at: row.utime_at,
    }
}

/// A message, where it is there, as it is told.
pub fn get_ticket_message(row: OptionalMessageRow, can_view_locked: bool) -> (r: Option<
    TicketMessage,
>)
    ensures
        r == (if row.complete() {
            Some(row.told(can_view_locked).message())
        } else {
            None
        }),
{
    make_message(tell(row, can_view_locked))
}

/// Who may not read locked messages is told nothing of what a locked message says, and all that an
/// unlocked one says.
pub proof fn locked_messages_stay_hidden(row: OptionalMessageRow)
    requires
        row.complete(),
    ensures
        row.unlocked == Some(false) ==> {
            &&& row.told(false).message().content is None
            &&& row.told(false).message().content_type is None
        },
        row.unlocked == Some(true) ==> row.told(false).message() == row.message(),
        row.told(true).message() == row.message(),
{
}

/// An operation on a ticket, as it is stored, with the message that was sent with it.
#[derive(Debug)]
pub struct OperationRow {
    pub id: i32,
    pub action: i16,
    pub actor_id: i32,
    pub actor_nickname: String,
    pub actor_type: i16,
    pub ctime_at: Timestamp,
    pub message: OptionalMessageRow,
}

/// An operation in a thread.
pub fn thread_operation(row: OperationRow, can_view_locked: bool) -> (r: TicketThreadItem)
    ensures
        r == TicketThreadItem::Operation(
            TicketOperation {
                id: row.id,
                action: TicketOperationAction::from_code(row.action),
                actor: TicketAggreInfoUser {
                    id: row.actor_id,
                    nickname: row.actor_nickname,
                    avatar: None,
                    email: None,
                },
                actor_type: RbTicketSenderType::from_code(row.actor_type),
                message: if row.message.complete() {
                    Some(row.message.told(can_view_locked).message())
                } else {
                    None
                },
                ctime_at: row.ctime_at,
            },
        ),
{
    TicketThreadItem::Operation(
        TicketOperation {
            id: row.id,
            action: row.action.into(),
            actor: TicketAggreInfoUser {
                id: row.actor_id,
                nickname: row.actor_nickname,
                avatar: None,
                email: None,
            },
            actor_type: row.actor_type.into(),
            message: get_ticket_message(row.message, can_view_locked),
            ctime_at: row.ctime_at,
        },
    )
}

/// A message of a ticket, with who wrote it.
#[derive(Debug, Clone, Copy, PartialEq, Eq, Structural)]
pub struct SentRow {
    pub id: i32,
    pub sender_type: i16,
}

/// Whether a message waits for an answer: the team wrote it, and the staff nothing later.
pub open spec fn waits(messages: Seq<SentRow>, i: int) -> bool {
    &&& messages[i].sender_type == 0
    &&& forall|k: int|
        0 <= k < messages.len() ==> !((#[trigger] messages[k]).sender_type == 1 && messages[k].id
            > messages[i].id)
}

/// How many of the first `n` messages wait for an answer.
pub open spec fn waiting(messages: Seq<SentRow>, n: int) -> int
    decreases n,
{
    if n <= 0 {
        0
    } else if waits(messages, n - 1) {
        waiting(messages, n - 1) + 1
    } else {
        waiting(messages, n - 1)
    }
}

/// How many messages of a ticket wait for an answer.
pub fn get_pending_count(messages: &Vec<SentRow>) -> (r: i64)
    requires
        messages@.len() <= i64::MAX,
    ensures
        r == waiting(messages@, messages@.len() as int),
{
    let mut count: i64 = 0;
    let mut i: usize = 0;
    while i < messages.len()
        invariant
            i <= messages@.len() <= i64::MAX,
            0 <= count <= i,
            count == waiting(messages@, i as int),
        decreases messages@.len() - i,
    {
        let message = messages[i];
        let mut answered = false;
        let mut k: usize = 0;
        while k < messages.len()
            invariant
                k <= messages@.len(),
                answered <==> exists|j: int|
                    0 <= j < k && (#[trigger] messages@[j]).sender_type == 1 && messages@[j].id
                        > message.id,
            decreases messages@.len() - k,
        {
            if messages[k].sender_type == 1 && messages[k].id > message.id {
                answered = true;
            }
            k += 1;
        }
        if message.sender_type == 0 && !answered {
            count += 1;
        }
        i += 1;
    }
    count
}

/// Behind an answer nothing waits.
pub proof fn answers_end_the_waiting(messages: Seq<SentRow>, answer: SentRow, n: int)
    requires
        answer.sender_type == 1,
        0 <= n <= messages.len() + 1,
        forall|i: int| 0 <= i < messages.len() ==> (#[trigger] messages[i]).id < answer.id,
    ensures
        waiting(messages.push(answer), n) == 0,
    decreases n,
{
    if n > 0 {
        answers_end_the_waiting(messages, answer, n - 1);
        let all = messages.push(answer);
        assert(all[messages.len() as int] == answer);
        if n - 1 < messages.len() {
            assert(all[n - 1] == messages[n - 1]);
        }
        assert(!waits(all, n - 1));
    }
}

/// Who takes care of a ticket after a message: a ticket that nobody takes care of goes to the member
/// of the staff who writes in it.
pub fn auto_assign_ticket_on_staff_message(assignee: Option<i32>, data: &SendMessageData) -> (r:
    Option<i32>)
    ensures
        r == (if assignee is None && data.sender_type is Host {
            Some(data.sender_id)
        } else {
            assignee
        }),
{
    if assignee.is_none() && matches!(data.sender_type, RbTicketSenderType::Host) {
        Some(data.sender_id)
    } else {
        assignee
    }
}

/// Readers who may not see a message that is locked see all of it but what it says.
pub proof fn locked_messages_hide_only_what_they_say(row: OptionalMessageRow, can_view_locked: bool)
    ensures
        ({
            let told = row.told(can_view_locked);
            &&& told.id == row.id && told.sender_id == row.sender_id && told.sender_nickname
                == row.sender_nickname && told.sender_type == row.sender_type
            &&& told.cost_id == row.cost_id && told.cost_amount == row.cost_amount && told.unlocked
                == row.unlocked && told.ctime_at == row.ctime_at && told.utime_at == row.utime_at
            &&& can_view_locked || row.unlocked == Some(true) ==> told.content == row.content
                && told.content_type == row.content_type
            &&& !can_view_locked && row.unlocked != Some(true) ==> told.content is None
                && told.content_type is None
        }),
{
}

/// A player's message waits until a host has written after it; what hosts write does not wait.
pub proof fn messages_wait_for_hosts(messages: Seq<SentRow>, i: int)
    requires
        0 <= i < messages.len(),
    ensures
        messages[i].sender_type != 0 ==> !waits(messages, i),
        messages[i].sender_type == 0 && (forall|k: int|
            0 <= k < messages.len() ==> (#[trigger] messages[k]).sender_type != 1 || messages[k].id
                <= messages[i].id) ==> waits(messages, i),
        forall|k: int|
            0 <= k < messages.len() && (#[trigger] messages[k]).sender_type == 1 && messages[k].id
                > messages[i].id ==> !waits(messages, i),
{
}

/// Each message that waits is counted once.
pub proof fn waiting_messages_are_counted(messages: Seq<SentRow>, n: int)
    requires
        0 <= n < messages.len(),
    ensures
        waiting(messages, 0) == 0,
        waiting(messages, n + 1) - waiting(messages, n) == (if waits(messages, n) {
            1int
        } else {
            0
        }),
{
}

} // verus!
