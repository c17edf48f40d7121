//! Notifications of a team.
use vstd::prelude::*;

use crate::clock::Timestamp;
use crate::ids;
use crate::json::Json;

verus! {

/// What a notification is about.
#[derive(Debug, Clone, Copy, PartialEq, Eq, Structural)]
pub enum NotificationKind {
    TicketReply,
    Unknown(i16),
}

impl NotificationKind {
    /// The number that stands for a kind in storage.
    pub open spec fn code_of(self) -> i16 {
        match self {
            NotificationKind::TicketReply => 1,
            NotificationKind::Unknown(code) => code,
        }
    }

    /// The kind that a number in storage stands for.
    pub open spec fn from_code(code: i16) -> Self {
        if code == 1 {
            NotificationKind::TicketReply
        } else {
            NotificationKind::Unknown(code)
        }
    }

    /// A number that was read is written as it was.
    pub proof fn codes_are_kept(code: i16)
        ensures
            Self::from_code(code).code_of() == code,
    {
    }
}

impl From<i16> for NotificationKind {
    fn from(code: i16) -> (r: Self) {
        if code == 1 {
            NotificationKind::TicketReply
        } else {
            NotificationKind::Unknown(code)
        }
    }
}

impl vstd::std_specs::convert::FromSpecImpl<i16> for NotificationKind {
    open spec fn obeys_from_spec() -> bool {
        true
    }

    open spec fn from_spec(code: i16) -> Self {
        NotificationKind::from_code(code)
    }
}

impl From<NotificationKind> for i16 {
    fn from(kind: NotificationKind) -> (r: i16) {
        match kind {
            NotificationKind::TicketReply => 1,
            NotificationKind::Unknown(code) => code,
        }
    }
}

impl vstd::std_specs::convert::FromSpecImpl<NotificationKind> for i16 {
    open spec fn obeys_from_spec() -> bool {
        true
    }

    open spec fn from_spec(kind: NotificationKind) -> i16 {
        kind.code_of()
    }
}

/// Who has brought a notification about.
#[derive(Debug)]
pub struct NotificationActor {
    pub id: i32,
    pub nickname: String,
}

/// A notification, as it is shown to a team.
#[derive(Debug)]
pub struct TeamNotification {
    pub id: i64,
    pub kind: i16,
    pub actor: Option<NotificationActor>,
    pub data: Json,
    pub read: bool,
    pub read_at: Option<Timestamp>,
    pub ctime_at: Timestamp,
}

/// A notification, as it is stored.
#[derive(Debug)]
pub struct NotificationRow {
    pub id: i64,
    pub kind: i16,
    pub data: Json,
    pub read_at: Option<Timestamp>,
    pub ctime_at: Timestamp,
    pub actor_id: Option<i32>,
    pub actor_nickname: Option<String>,
}

/// Whether a notification is shown as it is stored: it has an actor where both the id and the name
/// are there, and it has been read where it is known when.
pub open spec fn shows(shown: TeamNotification, row: NotificationRow) -> bool {
    &&& shown.id == row.id
    &&& shown.kind == row.kind
    &&& shown.data == row.data
    &&& shown.read == row.read_at is Some
    &&& shown.read_at == row.read_at
    &&& shown.ctime_at == row.ctime_at
    &&& shown.actor == (match (row.actor_id, row.actor_nickname) {
        (Some(id), Some(nickname)) => Some(NotificationActor { id, nickname }),
        _ => None,
    })
}

/// A notification, as it is shown to a team.
pub fn notification(row: NotificationRow) -> (r: TeamNotification)
    ensures
        shows(r, row),
{
    let actor = match (row.actor_id, row.actor_nickname) {
        (Some(id), Some(nickname)) => Some(NotificationActor { id, nickname }),
        _ => None,
    };
    TeamNotification {
        id: row.id,
        kind: row.kind,
        actor,
        data: row.data,
        read: row.read_at.is_some(),
        read_at: row.read_at,
        ctime_at: row.ctime_at,
    }
}

/// The notifications of a team, as they are shown.
pub fn list_for_team(rows: Vec<NotificationRow>) -> (r: Vec<TeamNotification>)
    ensures
        r@.len() == rows@.len(),
        forall|i: int| 0 <= i < rows@.len() ==> shows(#[trigger] r@[i], rows@[i]),
{
    let mut shown: Vec<TeamNotification> = Vec::new();
    for row in it: rows
        invariant
            it.seq() == rows@,
            shown@.len() == it.index(),
            forall|i: int| 0 <= i < shown@.len() ==> shows(#[trigger] shown@[i], rows@[i]),
    {
        shown.push(notification(row));
    }
    shown
}

/// How many notifications a team has not read, and how many of them are about no puzzle.
#[derive(Debug, Clone, Copy, PartialEq, Eq, Structural)]
pub struct NotificationUnreadCount {
    pub count: i64,
    pub dm_count: i64,
}

/// What decides whether a notification counts, and whether it is marked as read.
#[derive(Debug, Clone, Copy, PartialEq, Eq, Structural)]
pub struct NotificationMark {
    pub id: i64,
    pub kind: i16,
    /// The message that a notification of an answer is about.
    pub source_id: Option<i32>,
    /// Whether the notification is about no puzzle.
    pub is_dm: bool,
    pub read_at: Option<Timestamp>,
}

fn holds(ids: &Vec<i64>, id: i64) -> (r: bool)
    ensures
        r == ids@.contains(id),
{
    let mut i: usize = 0;
    while i < ids.len()
        invariant
            i <= ids@.len(),
            forall|k: int| 0 <= k < i ==> #[trigger] ids@[k] != id,
        decreases ids@.len() - i,
    {
        if ids[i] == id {
            return true;
        }
        i += 1;
    }
    false
}

/// Which notifications are to be marked as read.
#[derive(Debug, Clone, Copy)]
pub enum ReadScope<'a> {
    All,
    Notifications(&'a Vec<i64>),
    TicketMessages(&'a Vec<i32>),
}

impl<'a> ReadScope<'a> {
    /// Whether a notification is meant.
    pub open spec fn covers(self, mark: NotificationMark) -> bool {
        match self {
            ReadScope::All => true,
            ReadScope::Notifications(ids) => ids@.contains(mark.id),
            ReadScope::TicketMessages(ids) => mark.kind == NotificationKind::TicketReply.code_of()
                && (mark.source_id matches Some(id) && ids@.contains(id)),
        }
    }

    fn meets(&self, mark: &NotificationMark) -> (r: bool)
        ensures
            r == self.covers(*mark),
    {
        match self {
            ReadScope::All => true,
            ReadScope::Notifications(ids) => holds(ids, mark.id),
            ReadScope::TicketMessages(ids) => match mark.source_id {
                Some(id) => mark.kind == 1 && ids::contains(ids, id),
                None => false,
            },
        }
    }
}

/// The notifications that are marked as read: those that are meant and have not been read.
pub open spec fn marked(marks: Seq<NotificationMark>, scope: ReadScope<'_>) -> Seq<i64>
    decreases marks.len(),
{
    if marks.len() == 0 {
        Seq::empty()
    } else {
        let rest = marked(marks.drop_last(), scope);
        if marks.last().read_at is None && scope.covers(marks.last()) {
            rest.push(marks.last().id)
        } else {
            rest
        }
    }
}

fn mark(marks: &Vec<NotificationMark>, scope: ReadScope<'_>) -> (r: Vec<i64>)
    ensures
        r@ == marked(marks@, scope),
{
    let mut ids: Vec<i64> = Vec::new();
    let mut i: usize = 0;
    while i < marks.len()
        invariant
            i <= marks@.len(),
            ids@ == marked(marks@.take(i as int), scope),
        decreases marks@.len() - i,
    {
        assert(marks@.take(i + 1).drop_last() =~= marks@.take(i as int));
        assert(marks@.take(i + 1).last() == marks@[i as int]);
        if marks[i].read_at.is_none() && scope.meets(&marks[i]) {
            ids.push(marks[i].id);
        }
        i += 1;
    }
    assert(marks@.take(i as int) =~= marks@);
    ids
}

/// Which of a team's notifications are marked as read where some of them are named.
pub fn mark_many_read(marks: &Vec<NotificationMark>, notification_ids: &Vec<i64>) -> (r: Vec<i64>)
    ensures
        r@ == marked(marks@, ReadScope::Notifications(notification_ids)),
{
    mark(marks, ReadScope::Notifications(notification_ids))
}

/// Which of a team's notifications are marked as read with messages of tickets: those of answers.
pub fn mark_ticket_messages_read(marks: &Vec<NotificationMark>, message_ids: &Vec<i32>) -> (r: Vec<
    i64,
>)
    ensures
        r@ == marked(marks@, ReadScope::TicketMessages(message_ids)),
{
    mark(marks, ReadScope::TicketMessages(message_ids))
}

/// Which of a team's notifications are marked as read where all are meant.
pub fn mark_all_read(marks: &Vec<NotificationMark>) -> (r: Vec<i64>)
    ensures
        r@ == marked(marks@, ReadScope::All),
{
    mark(marks, ReadScope::All)
}

/// How many notifications have not been read: all of them, or those that are about no puzzle.
pub open spec fn unread(marks: Seq<NotificationMark>, only_dm: bool) -> int
    decreases marks.len(),
{
    if marks.len() == 0 {
        0
    } else {
        unread(marks.drop_last(), only_dm) + if marks.last().read_at is None && (!only_dm
            || marks.last().is_dm) {
            1int
        } else {
            0
        }
    }
}

/// How many of a team's notifications have not been read.
pub fn unread_count(marks: &Vec<NotificationMark>) -> (r: NotificationUnreadCount)
    requires
        marks@.len() <= i64::MAX,
    ensures
        r.count == unread(marks@, false),
        r.dm_count == unread(marks@, true),
{
    let mut count: i64 = 0;
    let mut dm_count: i64 = 0;
    let mut i: usize = 0;
    while i < marks.len()
        invariant
            i <= marks@.len() <= i64::MAX,
            0 <= count <= i,
            0 <= dm_count <= i,
            count == unread(marks@.take(i as int), false),
            dm_count == unread(marks@.take(i as int), true),
        decreases marks@.len() - i,
    {
        assert(marks@.take(i + 1).drop_last() =~= marks@.take(i as int));
        assert(marks@.take(i + 1).last() == marks@[i as int]);
        if marks[i].read_at.is_none() {
            count += 1;
            if marks[i].is_dm {
                dm_count += 1;
            }
        }
        i += 1;
    }
    assert(marks@.take(i as int) =~= marks@);
    NotificationUnreadCount { count, dm_count }
}

/// The notifications after some of them were marked as read.
pub open spec fn after_reading(
    marks: Seq<NotificationMark>,
    scope: ReadScope<'_>,
    now: Timestamp,
) -> Seq<NotificationMark> {
    marks.map_values(
        |mark: NotificationMark|
            if mark.read_at is None && scope.covers(mark) {
                NotificationMark { read_at: Some(now), ..mark }
            } else {
                mark
            },
    )
}

/// What has been marked as read is not marked again, and nothing is unread once all has been.
pub proof fn notifications_are_read_once(
    marks: Seq<NotificationMark>,
    scope: ReadScope<'_>,
    now: Timestamp,
)
    ensures
        marked(after_reading(marks, scope, now), scope) == Seq::<i64>::empty(),
        unread(after_reading(marks, scope, now), false) == unread(marks, false) - marked(
            marks,
            scope,
        ).len(),
        unread(after_reading(marks, ReadScope::All, now), false) == 0,
        unread(after_reading(marks, ReadScope::All, now), true) == 0,
    decreases marks.len(),
{
    if marks.len() > 0 {
        notifications_are_read_once(marks.drop_last(), scope, now);
        assert(after_reading(marks, scope, now).drop_last() =~= after_reading(
            marks.drop_last(),
            scope,
            now,
        ));
        assert(after_reading(marks, ReadScope::All, now).drop_last() =~= after_reading(
            marks.drop_last(),
            ReadScope::All,
            now,
        ));
    }
}

/// Whom a notification concerns.
#[derive(Debug, Clone, Copy, PartialEq, Eq, Structural)]
pub struct NotificationSyncInfo {
    pub id: i64,
    pub team_id: i32,
    pub game_id: i32,
}

/// Kinds of notifications come back from the numbers that they are stored as.
pub proof fn kinds_come_back(code: i16)
    ensures
        NotificationKind::from_code(code).code_of() == code,
        NotificationKind::from_code(code) == NotificationKind::TicketReply <==> code == 1,
{
}

/// A notification is shown as it is stored, read exactly where the time of reading is stored, and with
/// whoever caused it where both number and name are stored.
pub proof fn notifications_are_shown_as_stored(shown: TeamNotification, row: NotificationRow)
    requires
        shows(shown, row),
    ensures
        shown.id == row.id,
        shown.kind == row.kind,
        shown.data == row.data,
        shown.read <==> row.read_at is Some,
        shown.read_at == row.read_at,
        shown.ctime_at == row.ctime_at,
        shown.actor is Some <==> row.actor_id is Some && row.actor_nickname is Some,
        shown.actor matches Some(actor) ==> row.actor_id == Some(actor.id) && row.actor_nickname
            == Some(actor.nickname),
{
}

/// Notifications are marked that are unread and asked for: all of them, those that are named, or those
/// of replies in tickets whose messages are named.
pub proof fn unread_notifications_are_marked(
    marks: Seq<NotificationMark>,
    mark: NotificationMark,
    ids: Vec<i64>,
    messages: Vec<i32>,
)
    ensures
        marked(Seq::empty(), ReadScope::All).len() == 0,
        marked(marks.push(mark), ReadScope::All) == (if mark.read_at is None {
            marked(marks, ReadScope::All).push(mark.id)
        } else {
            marked(marks, ReadScope::All)
        }),
        marked(Seq::empty(), ReadScope::Notifications(&ids)).len() == 0,
        marked(marks.push(mark), ReadScope::Notifications(&ids)) == (if mark.read_at is None
            && ids@.contains(mark.id) {
            marked(marks, ReadScope::Notifications(&ids)).push(mark.id)
        } else {
            marked(marks, ReadScope::Notifications(&ids))
        }),
        marked(Seq::empty(), ReadScope::TicketMessages(&messages)).len() == 0,
        marked(marks.push(mark), ReadScope::TicketMessages(&messages)) == (if mark.read_at is None
            && mark.kind == 1 && mark.source_id is Some && messages@.contains(mark.source_id->0) {
            marked(marks, ReadScope::TicketMessages(&messages)).push(mark.id)
        } else {
            marked(marks, ReadScope::TicketMessages(&messages))
        }),
{
    assert(marks.push(mark).drop_last() =~= marks);
}

/// Each notification that is unread is counted once, and among messages only where it is one.
pub proof fn unread_notifications_are_counted(marks: Seq<NotificationMark>, mark: NotificationMark)
    ensures
        unread(Seq::empty(), false) == 0,
        unread(Seq::empty(), true) == 0,
        unread(marks.push(mark), false) - unread(marks, false) == (if mark.read_at is None {
            1int
        } else {
            0
        }),
        unread(marks.push(mark), true) - unread(marks, true) == (if mark.read_at is None
            && mark.is_dm {
            1int
        } else {
            0
        }),
{
    assert(marks.push(mark).drop_last() =~= marks);
}

/// Reading sets the time of what is marked and of nothing else, and changes nothing but that.
pub proof fn reading_sets_the_time(marks: Seq<NotificationMark>, now: Timestamp, i: int)
    requires
        0 <= i < marks.len(),
    ensures
        ({
            let after = after_reading(marks, ReadScope::All, now);
            &&& after.len() == marks.len()
            &&& after[i].id == marks[i].id && after[i].kind == marks[i].kind && after[i].source_id
                == marks[i].source_id && after[i].is_dm == marks[i].is_dm
            &&& marks[i].read_at is Some ==> after[i].read_at == marks[i].read_at
            &&& marks[i].read_at is None ==> after[i].read_at == Some(now)
        }),
{
}

} // verus!
