//! Which events are shown to whom.
use vstd::prelude::*;
use vstd::string::*;

use crate::clock::Timestamp;
use crate::db::event_log;
use crate::db::event_log::{admin_page, page_size, AdminLogQuery, EventScope};
use crate::json;
use crate::json::{Fields, Json, J};
use crate::text::same;

verus! {

/// An event, as it is shown.
#[derive(Debug)]
pub struct EventLogData {
    pub id: i64,
    pub event_type: String,
    pub scope: i16,
    pub severity: i16,
    pub game_id: Option<i32>,
    pub team_id: Option<i32>,
    pub user_id: Option<i32>,
    pub target_user_id: Option<i32>,
    pub puzzle_id: Option<i32>,
    pub round_id: Option<i32>,
    pub hint_id: Option<i32>,
    pub ticket_id: Option<i32>,
    pub submission_id: Option<i32>,
    pub currency_id: Option<i32>,
    pub delta_amount: Option<i64>,
    pub data: Json,
    pub ctime_at: Timestamp,
}

/// A user that an event names.
#[derive(Debug)]
pub struct EventUser {
    pub id: i32,
    pub nickname: String,
}

/// An event as it is stored, with what it refers to as far as that is there.
#[derive(Debug)]
pub struct EventLogRow {
    pub event: EventLogData,
    pub user: Option<EventUser>,
    pub target_user: Option<EventUser>,
    /// When the puzzle of the event is released.
    pub puzzle_release_at: Option<Timestamp>,
}

impl EventLogRow {
    /// Whether the data of the event can be shown: events store objects.
    pub open spec fn wf(self) -> bool {
        self.event.data.wf() && self.event.data@ is Object
    }
}

/// Which events of a team its members ask for: those of one currency, or all but penalties.
#[derive(Debug, Clone, Copy, PartialEq, Eq, Structural)]
pub struct ActivityQuery {
    pub team_id: i32,
    pub currency_id: Option<i32>,
    pub before: Option<i64>,
    pub limit: i64,
}

/// Which events are asked for.
pub enum Wanted<'a> {
    Activity(ActivityQuery, Timestamp),
    Logs(&'a AdminLogQuery<'a>),
}

/// Whether a value is the one that is asked for, if one is.
pub open spec fn fits<T>(asked: Option<T>, value: Option<T>) -> bool {
    asked is Some ==> value == asked
}

impl<'a> Wanted<'a> {
    /// Whether an event is asked for. Members of a team are shown nothing of a puzzle before it is
    /// released.
    pub open spec fn takes(self, row: EventLogRow) -> bool {
        let event = row.event;
        match self {
            Wanted::Activity(query, now) => {
                &&& event.team_id == Some(query.team_id)
                &&& event.scope == EventScope::TeamActivity.code_of()
                &&& match query.currency_id {
                    Some(id) => event.currency_id == Some(id),
                    None => event.event_type@ != "currency.penalty"@,
                }
                &&& row.puzzle_release_at matches Some(at) ==> at <= now
                &&& query.before matches Some(id) ==> event.id < id
            },
            Wanted::Logs(query) => {
                &&& fits(query.scope, Some(event.scope))
                &&& fits(query.severity, Some(event.severity))
                &&& query.event_type matches Some(name) ==> event.event_type@ == name@
                &&& fits(query.game_id, event.game_id)
                &&& fits(query.team_id, event.team_id)
                &&& query.user_id is Some ==> event.user_id == query.user_id || event.target_user_id
                    == query.user_id
            },
        }
    }

    fn accepts(&self, row: &EventLogRow) -> (r: bool)
        ensures
            r == self.takes(*row),
    {
        let event = &row.event;
        match self {
            Wanted::Activity(query, now) => {
                let named = match query.currency_id {
                    Some(id) => is_value(event.currency_id, id),
                    None => !same(event.event_type.as_str(), "currency.penalty"),
                };
                let released = match row.puzzle_release_at {
                    Some(at) => at <= *now,
                    None => true,
                };
                let older = match query.before {
                    Some(id) => event.id < id,
                    None => true,
                };
                is_value(event.team_id, query.team_id) && event.scope == i16::from(
                    EventScope::TeamActivity,
                ) && named && released && older
            },
            Wanted::Logs(query) => {
                let scope = match query.scope {
                    Some(scope) => event.scope == scope,
                    None => true,
                };
                let severity = match query.severity {
                    Some(severity) => event.severity == severity,
                    None => true,
                };
                let named = match query.event_type {
                    Some(name) => same(event.event_type.as_str(), name),
                    None => true,
                };
                let game = match query.game_id {
                    Some(id) => is_value(event.game_id, id),
                    None => true,
                };
                let team = match query.team_id {
                    Some(id) => is_value(event.team_id, id),
                    None => true,
                };
                let user = match query.user_id {
                    Some(id) => is_value(event.user_id, id) || is_value(event.target_user_id, id),
                    None => true,
                };
                scope && severity && named && game && team && user
            },
        }
    }
}

fn is_value(value: Option<i32>, id: i32) -> (r: bool)
    ensures
        r == (value == Some(id)),
{
    match value {
        Some(v) => v == id,
        None => false,
    }
}

/// How a user is written in the data of an event.
pub open spec fn user_json(user: Option<EventUser>) -> Option<J> {
    match user {
        Some(u) => Some(
            json::object_of(
                seq![("id"@, json::int_json(u.id as int)), ("nickname"@, J::Text(u.nickname@))],
            ),
        ),
        None => None,
    }
}

fn user_value(user: &Option<EventUser>) -> (r: Option<Json>)
    ensures
        json::opt_view(r) == user_json(*user),
        r matches Some(v) ==> v.wf(),
{
    match user {
        Some(u) => {
            let fields = Fields::new().put("id", Json::integer(u.id as i64)).put(
                "nickname",
                Json::text(u.nickname.as_str()),
            );
            assert(fields.pairs() =~= seq![
                ("id"@, json::int_json(u.id as int)),
                ("nickname"@, J::Text(u.nickname@)),
            ]);
            proof {
                reveal_strlit("id");
                reveal_strlit("nickname");
                assert("id"@.len() != "nickname"@.len());
                assert(fields.pairs()[0] == ("id"@, json::int_json(u.id as int)));
                assert(fields.pairs()[1] == ("nickname"@, J::Text(u.nickname@)));
                assert(fields.entries@.len() == 2);
                assert(json::json_wf(fields.entries@[0].1));
                assert(json::json_wf(fields.entries@[1].1));
            }
            Some(fields.object())
        },
        None => None,
    }
}

/// The data of an event as it is shown: the users are those that are there now, whatever the event
/// itself says of them.
pub open spec fn told_data(row: EventLogRow) -> J {
    let stored = row.event.data@->Object_0;
    J::Object(
        json::with_key(
            json::with_key(stored, "user"@, user_json(row.user)),
            "target_user"@,
            user_json(row.target_user),
        ),
    )
}

/// When an event is shown to have happened. To the members of a team, what concerns a puzzle
/// happens when the puzzle is released, or later.
pub open spec fn told_at(row: EventLogRow, wanted: Wanted<'_>) -> Timestamp {
    match (wanted, row.puzzle_release_at) {
        (Wanted::Activity(_, _), Some(at)) if at > row.event.ctime_at => at,
        _ => row.event.ctime_at,
    }
}

/// Whether an event is shown as it is stored, but for its users and its time.
pub open spec fn tells(shown: EventLogData, row: EventLogRow, wanted: Wanted<'_>) -> bool {
    let data = shown.data;
    &&& data@ == told_data(row)
    &&& shown == (EventLogData { data, ctime_at: told_at(row, wanted), ..row.event })
}

/// The events that are asked for, in the order in which they are given.
pub open spec fn chosen(rows: Seq<EventLogRow>, wanted: Wanted<'_>) -> Seq<EventLogRow>
    decreases rows.len(),
{
    if rows.len() == 0 {
        Seq::empty()
    } else if wanted.takes(rows.last()) {
        chosen(rows.drop_last(), wanted).push(rows.last())
    } else {
        chosen(rows.drop_last(), wanted)
    }
}

/// How many events a page shows of those that are asked for, when some are skipped.
pub open spec fn shown_count(found: int, offset: int, limit: int) -> int {
    if found <= offset {
        0
    } else if found - offset > limit {
        limit
    } else {
        found - offset
    }
}

/// Whether a page shows the events that are asked for, after some that are skipped.
pub open spec fn is_page(
    shown: Seq<EventLogData>,
    rows: Seq<EventLogRow>,
    wanted: Wanted<'_>,
    offset: int,
    limit: int,
) -> bool {
    let found = chosen(rows, wanted);
    &&& shown.len() == shown_count(found.len() as int, offset, limit)
    &&& forall|i: int|
        0 <= i < shown.len() ==> tells(#[trigger] shown[i], found[offset + i], wanted)
}

fn tell(row: EventLogRow, wanted: &Wanted<'_>) -> (r: EventLogData)
    requires
        row.wf(),
    ensures
        tells(r, row, *wanted),
{
    let user = user_value(&row.user);
    let target_user = user_value(&row.target_user);
    let ctime_at = match (wanted, row.puzzle_release_at) {
        (Wanted::Activity(_, _), Some(at)) => if at > row.event.ctime_at {
            at
        } else {
            row.event.ctime_at
        },
        _ => row.event.ctime_at,
    };
    let event = row.event;
    let data = event.data.set_key("user", user).set_key("target_user", target_user);
    EventLogData {
        id: event.id,
        event_type: event.event_type,
        scope: event.scope,
        severity: event.severity,
        game_id: event.game_id,
        team_id: event.team_id,
        user_id: event.user_id,
        target_user_id: event.target_user_id,
        puzzle_id: event.puzzle_id,
        round_id: event.round_id,
        hint_id: event.hint_id,
        ticket_id: event.ticket_id,
        submission_id: event.submission_id,
        currency_id: event.currency_id,
        delta_amount: event.delta_amount,
        data,
        ctime_at,
    }
}

fn page(rows: Vec<EventLogRow>, wanted: &Wanted<'_>, offset: u64, limit: u64) -> (r: Vec<
    EventLogData,
>)
    requires
        forall|i: int| 0 <= i < rows@.len() ==> (#[trigger] rows@[i]).wf(),
    ensures
        is_page(r@, rows@, *wanted, offset as int, limit as int),
{
    let ghost all = rows@;
    let n: usize = rows.len();
    let mut shown: Vec<EventLogData> = Vec::new();
    let mut found: usize = 0;
    for row in it: rows
        invariant
            it.seq() == all,
            found <= it.index() <= all.len(),
            all.len() == n,
            found == chosen(all.take(it.index()), *wanted).len(),
            is_page(shown@, all.take(it.index()), *wanted, offset as int, limit as int),
            forall|i: int| 0 <= i < all.len() ==> (#[trigger] all[i]).wf(),
    {
        let ghost before = all.take(it.index());
        let ghost after = all.take(it.index() + 1);
        proof {
            assert(after.drop_last() =~= before);
            assert(after.last() == row);
            assert(all[it.index()] == row);
        }
        if wanted.accepts(&row) {
            let ghost kept = shown@;
            if found as u64 >= offset && (shown.len() as u64) < limit {
                let told = tell(row, wanted);
                shown.push(told);
            }
            found += 1;
            proof {
                assert(chosen(after, *wanted) == chosen(before, *wanted).push(row));
                assert forall|i: int| 0 <= i < shown@.len() implies tells(
                    #[trigger] shown@[i],
                    chosen(after, *wanted)[offset + i],
                    *wanted,
                ) by {
                    if i < kept.len() {
                        assert(shown@[i] == kept[i]);
                        assert(tells(kept[i], chosen(before, *wanted)[offset + i], *wanted));
                    }
                }
            }
        }
    }
    assert(all.take(all.len() as int) =~= all);
    shown
}

/// The events of a team that its members are shown, of those that are stored, newest first. Each
/// page holds at least 1 and at most 100.
pub fn list_team_activity(rows: Vec<EventLogRow>, query: ActivityQuery, now: Timestamp) -> (r: Vec<
    EventLogData,
>)
    requires
        forall|i: int| 0 <= i < rows@.len() ==> (#[trigger] rows@[i]).wf(),
    ensures
        is_page(
            r@,
            rows@,
            Wanted::Activity(query, now),
            0,
            event_log::page_limit(query.limit as int),
        ),
{
    let limit = page_size(query.limit);
    page(rows, &Wanted::Activity(query, now), 0, limit as u64)
}

/// The events that an administrator is shown, of those that are stored, newest first.
pub fn list_admin_logs(rows: Vec<EventLogRow>, query: &AdminLogQuery) -> (r: Vec<EventLogData>)
    requires
        forall|i: int| 0 <= i < rows@.len() ==> (#[trigger] rows@[i]).wf(),
    ensures
        is_page(
            r@,
            rows@,
            Wanted::Logs(query),
            event_log::page_start(query.offset as int),
            event_log::page_limit(query.limit as int),
        ),
{
    let (limit, offset) = admin_page(query);
    page(rows, &Wanted::Logs(query), offset as u64, limit as u64)
}

/// How many of the events that are stored an administrator asks for.
pub fn count_admin_logs(rows: &Vec<EventLogRow>, query: &AdminLogQuery) -> (r: usize)
    ensures
        r == chosen(rows@, Wanted::Logs(query)).len(),
{
    let wanted = Wanted::Logs(query);
    let mut found: usize = 0;
    let mut i: usize = 0;
    while i < rows.len()
        invariant
            found <= i <= rows@.len(),
            wanted == Wanted::Logs(query),
            found == chosen(rows@.take(i as int), wanted).len(),
        decreases rows@.len() - i,
    {
        assert(rows@.take(i + 1).drop_last() =~= rows@.take(i as int));
        if wanted.accepts(&rows[i]) {
            found += 1;
        }
        i += 1;
    }
    assert(rows@.take(i as int) =~= rows@);
    found
}

/// Nothing that concerns a puzzle is shown to the members of a team before the puzzle is released,
/// and nothing of another team ever is.
pub proof fn activity_is_of_the_team_and_released(
    rows: Seq<EventLogRow>,
    query: ActivityQuery,
    now: Timestamp,
    i: int,
)
    requires
        0 <= i < chosen(rows, Wanted::Activity(query, now)).len(),
    ensures
        ({
            let row = chosen(rows, Wanted::Activity(query, now))[i];
            &&& rows.contains(row)
            &&& row.event.team_id == Some(query.team_id)
            &&& row.puzzle_release_at matches Some(at) ==> at <= now
            &&& told_at(row, Wanted::Activity(query, now)) >= row.event.ctime_at
        }),
    decreases rows.len(),
{
    let wanted = Wanted::Activity(query, now);
    let rest = rows.drop_last();
    let found = chosen(rest, wanted);
    if i < found.len() {
        activity_is_of_the_team_and_released(rest, query, now, i);
        let j = choose|j: int| 0 <= j < rest.len() && rest[j] == found[i];
        assert(rows[j] == found[i]);
    } else {
        assert(rows[rows.len() - 1] == rows.last());
    }
}

/// A team is told of an event exactly where it is one of its own activities, of the currency that is
/// asked for or else no charge for a wrong answer, of a puzzle that is released, and older than where
/// the page starts.
pub proof fn activities_are_those_asked_for(query: ActivityQuery, now: Timestamp, row: EventLogRow)
    ensures
        Wanted::Activity(query, now).takes(row) <==> {
            &&& row.event.team_id == Some(query.team_id)
            &&& row.event.scope == 1
            &&& query.currency_id is Some ==> row.event.currency_id == query.currency_id
            &&& query.currency_id is None ==> row.event.event_type@ != "currency.penalty"@
            &&& row.puzzle_release_at is None || row.puzzle_release_at->0 <= now
            &&& query.before is None || row.event.id < query.before->0
        },
{
}

/// The staff is told of an event exactly where it meets each filter that is set; a user is looked for
/// among those who acted and those who were acted on.
pub proof fn logs_meet_every_filter(query: AdminLogQuery, row: EventLogRow)
    ensures
        Wanted::Logs(&query).takes(row) <==> {
            &&& query.scope is None || query.scope->0 == row.event.scope
            &&& query.severity is None || query.severity->0 == row.event.severity
            &&& query.event_type is None || query.event_type->0@ == row.event.event_type@
            &&& query.game_id is None || row.event.game_id == query.game_id
            &&& query.team_id is None || row.event.team_id == query.team_id
            &&& query.user_id is None || row.event.user_id == query.user_id
                || row.event.target_user_id == query.user_id
        },
{
}

/// The events that are wanted are chosen in their order, and no others.
pub proof fn wanted_events_are_chosen(rows: Seq<EventLogRow>, row: EventLogRow, wanted: Wanted<'_>)
    ensures
        chosen(Seq::empty(), wanted).len() == 0,
        ({
            let before = chosen(rows, wanted);
            let after = chosen(rows.push(row), wanted);
            let counts = wanted.takes(row);
            &&& counts ==> after == before.push(row)
            &&& !counts ==> after == before
        }),
{
    assert(rows.push(row).drop_last() =~= rows);
}

/// An event is told as it is stored, but for its data, which name the users, and its time, which for
/// a team is not before the release of the puzzle.
pub proof fn events_are_told_as_stored(shown: EventLogData, row: EventLogRow, wanted: Wanted<'_>)
    requires
        tells(shown, row, wanted),
    ensures
        shown.id == row.event.id,
        shown.event_type@ == row.event.event_type@,
        shown.scope == row.event.scope,
        shown.severity == row.event.severity,
        shown.game_id == row.event.game_id,
        shown.team_id == row.event.team_id,
        shown.user_id == row.event.user_id,
        shown.target_user_id == row.event.target_user_id,
        shown.puzzle_id == row.event.puzzle_id,
        shown.round_id == row.event.round_id,
        shown.hint_id == row.event.hint_id,
        shown.ticket_id == row.event.ticket_id,
        shown.submission_id == row.event.submission_id,
        shown.currency_id == row.event.currency_id,
        shown.delta_amount == row.event.delta_amount,
        wanted is Logs ==> shown.ctime_at == row.event.ctime_at,
        row.puzzle_release_at is None ==> shown.ctime_at == row.event.ctime_at,
        wanted is Activity && row.puzzle_release_at is Some ==> shown.ctime_at
            >= row.puzzle_release_at->0 && shown.ctime_at >= row.event.ctime_at && (shown.ctime_at
            == row.event.ctime_at || shown.ctime_at == row.puzzle_release_at->0),
        shown.data@ is Object,
        ({
            let told = shown.data@->Object_0;
            let stored = row.event.data@->Object_0;
            &&& told.dom().contains("user"@) <==> row.user is Some
            &&& told.dom().contains("target_user"@) <==> row.target_user is Some
            &&& forall|key: Seq<char>|
                key != "user"@ && key != "target_user"@ ==> (#[trigger] told.dom().contains(key)
                    <==> stored.dom().contains(key))
            &&& forall|key: Seq<char>|
                key != "user"@ && key != "target_user"@ && stored.dom().contains(key)
                    ==> #[trigger] told[key] == stored[key]
        }),
{
    reveal_strlit("user");
    reveal_strlit("target_user");
    assert("user"@.len() != "target_user"@.len());
}

/// A page tells as many events as are asked for and left behind where it starts.
pub proof fn pages_tell_what_is_left(found: int, offset: int, limit: int)
    requires
        0 <= found,
        0 <= offset,
        0 <= limit,
    ensures
        0 <= shown_count(found, offset, limit) <= limit,
        offset >= found ==> shown_count(found, offset, limit) == 0,
        offset < found ==> offset + shown_count(found, offset, limit) <= found,
        offset < found && limit > 0 ==> shown_count(found, offset, limit) == limit || offset
            + shown_count(found, offset, limit) == found,
{
}

/// A page tells the events that are chosen, one for one, from where it starts.
pub proof fn pages_tell_the_chosen_events(
    shown: Seq<EventLogData>,
    rows: Seq<EventLogRow>,
    wanted: Wanted<'_>,
    offset: int,
    limit: int,
    i: int,
)
    requires
        is_page(shown, rows, wanted, offset, limit),
        0 <= offset,
        0 <= limit,
        0 <= i < shown.len(),
    ensures
        shown.len() <= limit,
        offset + shown.len() <= chosen(rows, wanted).len(),
        shown[i].id == chosen(rows, wanted)[offset + i].event.id,
        tells(shown[i], chosen(rows, wanted)[offset + i], wanted),
{
}

/// Users are named in the data of an event by their number and their name.
pub proof fn users_are_named_in_events(user: EventUser, row: EventLogRow)
    ensures
        user_json(None) is None,
        user_json(Some(user)) is Some,
        user_json(Some(user))->0 is Object,
        user_json(Some(user))->0->Object_0["id"@] == json::int_json(user.id as int),
        user_json(Some(user))->0->Object_0["nickname"@] == J::Text(user.nickname@),
        row.user is Some ==> told_data(row)->Object_0["user"@] == user_json(row.user)->0,
        row.target_user is Some ==> told_data(row)->Object_0["target_user"@] == user_json(
            row.target_user,
        )->0,
{
    reveal_strlit("id");
    reveal_strlit("nickname");
    assert("id"@.len() == 2 && "nickname"@.len() == 8);
    let pairs = seq![("id"@, json::int_json(user.id as int)), ("nickname"@, J::Text(user.nickname@))];
    json::keys_hold_their_values(pairs, 0);
    json::keys_hold_their_values(pairs, 1);
    reveal_strlit("user");
    reveal_strlit("target_user");
    assert("user"@.len() == 4 && "target_user"@.len() == 11);
}

} // verus!
