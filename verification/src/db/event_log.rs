//! The log of what happens in a game.
use vstd::prelude::*;
use vstd::std_specs::convert::FromSpecImpl;

use crate::json;
use crate::json::{Fields, Json, J};

verus! {

/// Whom an event concerns.
#[derive(Debug, Clone, Copy, PartialEq, Eq, Structural)]
pub enum EventScope {
    TeamActivity,
    System,
    Admin,
    Security,
}

#[derive(Debug, Clone, Copy, PartialEq, Eq, Structural)]
pub enum EventSeverity {
    Info,
    Warning,
    Error,
}

impl EventScope {
    pub open spec fn code_of(self) -> i16 {
        match self {
            EventScope::TeamActivity => 1,
            EventScope::System => 2,
            EventScope::Admin => 3,
            EventScope::Security => 4,
        }
    }
}

impl EventSeverity {
    pub open spec fn code_of(self) -> i16 {
        match self {
            EventSeverity::Info => 0,
            EventSeverity::Warning => 1,
            EventSeverity::Error => 2,
        }
    }
}

impl From<EventScope> for i16 {
    fn from(value: EventScope) -> (r: i16) {
        match value {
            EventScope::TeamActivity => 1,
            EventScope::System => 2,
            EventScope::Admin => 3,
            EventScope::Security => 4,
        }
    }
}

impl FromSpecImpl<EventScope> for i16 {
    open spec fn obeys_from_spec() -> bool {
        true
    }

    open spec fn from_spec(value: EventScope) -> i16 {
        value.code_of()
    }
}

impl From<EventSeverity> for i16 {
    fn from(value: EventSeverity) -> (r: i16) {
        match value {
            EventSeverity::Info => 0,
            EventSeverity::Warning => 1,
            EventSeverity::Error => 2,
        }
    }
}

impl FromSpecImpl<EventSeverity> for i16 {
    open spec fn obeys_from_spec() -> bool {
        true
    }

    open spec fn from_spec(value: EventSeverity) -> i16 {
        value.code_of()
    }
}

/// An event to be logged.
#[derive(Debug)]
pub struct EventLogInput {
    pub event_type: &'static str,
    pub event_scope: i16,
    pub severity: i16,
    pub game_id: Option<i32>,
    pub team_id: Option<i32>,
    pub user_id: Option<i32>,
    pub target_user_id: Option<i32>,
    pub puzzle_id: Option<i32>,
    pub round_id: Option<i32>,
    pub hint_id: Option<i32>,
    pub ticket_id: Option<i32>,
    pub submission_id: Option<i32>,
    pub currency_id: Option<i32>,
    pub delta_amount: Option<i64>,
    pub data: Json,
}

/// What an event refers to.
pub struct EventRefs {
    pub game_id: Option<i32>,
    pub team_id: Option<i32>,
    pub user_id: Option<i32>,
    pub target_user_id: Option<i32>,
    pub puzzle_id: Option<i32>,
    pub round_id: Option<i32>,
    pub hint_id: Option<i32>,
    pub ticket_id: Option<i32>,
    pub submission_id: Option<i32>,
    pub currency_id: Option<i32>,
    pub delta_amount: Option<i64>,
}

/// References to nothing.
pub open spec fn no_refs() -> EventRefs {
    EventRefs {
        game_id: None,
        team_id: None,
        user_id: None,
        target_user_id: None,
        puzzle_id: None,
        round_id: None,
        hint_id: None,
        ticket_id: None,
        submission_id: None,
        currency_id: None,
        delta_amount: None,
    }
}

impl EventLogInput {
    pub open spec fn refs(self) -> EventRefs {
        EventRefs {
            game_id: self.game_id,
            team_id: self.team_id,
            user_id: self.user_id,
            target_user_id: self.target_user_id,
            puzzle_id: self.puzzle_id,
            round_id: self.round_id,
            hint_id: self.hint_id,
            ticket_id: self.ticket_id,
            submission_id: self.submission_id,
            currency_id: self.currency_id,
            delta_amount: self.delta_amount,
        }
    }

    /// Whether this is an ordinary event of a team, with the given name, references and data.
    pub open spec fn is_team_event(self, name: Seq<char>, refs: EventRefs, data: J) -> bool {
        &&& self.event_type@ == name
        &&& self.event_scope == EventScope::TeamActivity.code_of()
        &&& self.severity == EventSeverity::Info.code_of()
        &&& self.refs() == refs
        &&& self.data@ == data
    }

    /// An ordinary event of a team that refers to nothing yet.
    pub fn team_activity(event_type: &'static str, data: Json) -> (r: Self)
        ensures
            r.is_team_event(event_type@, no_refs(), data@),
    {
        EventLogInput {
            event_type,
            event_scope: EventScope::TeamActivity.into(),
            severity: EventSeverity::Info.into(),
            game_id: None,
            team_id: None,
            user_id: None,
            target_user_id: None,
            puzzle_id: None,
            round_id: None,
            hint_id: None,
            ticket_id: None,
            submission_id: None,
            currency_id: None,
            delta_amount: None,
            data,
        }
    }
}

/// How a puzzle is written in an event.
pub open spec fn puzzle_json(id: int, title: Seq<char>) -> J {
    json::object_of(seq![("id"@, json::int_json(id)), ("title"@, J::Text(title))])
}

/// How a puzzle is written in an event.
pub fn puzzle_value(id: i32, title: &str) -> (r: Json)
    ensures
        r@ == puzzle_json(id as int, title@),
{
    let fields = Fields::new().put("id", Json::integer(id as i64)).put("title", Json::text(title));
    assert(fields.pairs() =~= seq![("id"@, json::int_json(id as int)), ("title"@, J::Text(title@))]);
    fields.object()
}

/// An object that holds nothing but an id.
pub open spec fn id_json(id: int) -> J {
    json::object_of(seq![("id"@, json::int_json(id))])
}

/// An object that holds nothing but an id.
pub fn id_value(id: i32) -> (r: Json)
    ensures
        r@ == id_json(id as int),
{
    let fields = Fields::new().put("id", Json::integer(id as i64));
    assert(fields.pairs() =~= seq![("id"@, json::int_json(id as int))]);
    fields.object()
}

#[derive(Debug, Clone, Copy, PartialEq, Eq, Structural)]
pub struct CurrencyActivitySummary {
    pub currency_id: i32,
    pub init_amount: i64,
    pub current_amount: i64,
    pub logged_delta: i64,
}

/// Which events an administrator asks for.
pub struct AdminLogQuery<'a> {
    pub scope: Option<i16>,
    pub severity: Option<i16>,
    pub event_type: Option<&'a str>,
    pub game_id: Option<i32>,
    pub team_id: Option<i32>,
    pub user_id: Option<i32>,
    pub offset: i64,
    pub limit: i64,
}

/// How many events a page may hold: what was asked for, but at least 1 and at most 100.
pub open spec fn page_limit(limit: int) -> int {
    if limit < 1 {
        1
    } else if limit > 100 {
        100
    } else {
        limit
    }
}

/// How many events a page holds.
pub fn page_size(limit: i64) -> (r: i64)
    ensures
        r == page_limit(limit as int),
{
    if limit < 1 {
        1
    } else if limit > 100 {
        100
    } else {
        limit
    }
}

/// How many events come before a page.
pub open spec fn page_start(offset: int) -> int {
    if offset < 0 {
        0
    } else {
        offset
    }
}

/// How many events a page for an administrator holds, and how many come before it.
pub fn admin_page(query: &AdminLogQuery) -> (r: (i64, i64))
    ensures
        r.0 == page_limit(query.limit as int),
        r.1 == page_start(query.offset as int),
{
    let offset: i64 = if query.offset < 0 {
        0
    } else {
        query.offset
    };
    (page_size(query.limit), offset)
}

/// A change of a team's balance.
#[derive(Debug)]
pub struct CurrencyEventData {
    pub id: i32,
    pub slug: String,
    pub name: String,
    pub prec: i32,
    pub before: i64,
    pub after: i64,
}

/// How a currency is written in an event.
pub open spec fn currency_json(c: CurrencyEventData) -> J {
    json::object_of(
        seq![
            ("id"@, json::int_json(c.id as int)),
            ("slug"@, J::Text(c.slug@)),
            ("name"@, J::Text(c.name@)),
            ("prec"@, json::int_json(c.prec as int)),
        ],
    )
}

/// A puzzle with an optional title, where there is a puzzle.
pub open spec fn opt_puzzle_json(id: Option<i32>, title: Option<Seq<char>>) -> J {
    match id {
        Some(id) => json::object_of(
            seq![("id"@, json::int_json(id as int)), ("title"@, json::opt_text_json(title))],
        ),
        None => J::Null,
    }
}

impl CurrencyEventData {
    /// Whether the change can be written as a number.
    pub open spec fn wf(self) -> bool {
        i64::MIN <= self.after - self.before <= i64::MAX
    }

    /// By how much the balance has changed.
    pub fn delta(&self) -> (r: i64)
        requires
            self.wf(),
        ensures
            r == self.after - self.before,
            self.before + r == self.after,
    {
        self.after - self.before
    }

    pub fn currency_value(&self) -> (r: Json)
        ensures
            r@ == currency_json(*self),
    {
        let fields = Fields::new().put("id", Json::integer(self.id as i64)).put(
            "slug",
            Json::text(self.slug.as_str()),
        ).put("name", Json::text(self.name.as_str())).put("prec", Json::integer(self.prec as i64));
        assert(fields.pairs() =~= seq![
            ("id"@, json::int_json(self.id as int)),
            ("slug"@, J::Text(self.slug@)),
            ("name"@, J::Text(self.name@)),
            ("prec"@, json::int_json(self.prec as int)),
        ]);
        fields.object()
    }

    /// What is logged of the change.
    pub open spec fn pairs(
        self,
        reason: Option<Seq<char>>,
        puzzle_id: Option<i32>,
        puzzle_title: Option<Seq<char>>,
    ) -> Seq<(Seq<char>, J)> {
        seq![
            ("reason"@, json::opt_text_json(reason)),
            ("puzzle"@, opt_puzzle_json(puzzle_id, puzzle_title)),
            ("currency"@, currency_json(self)),
            ("delta"@, json::int_json(self.after - self.before)),
            ("before"@, json::int_json(self.before as int)),
            ("after"@, json::int_json(self.after as int)),
        ]
    }

    /// What is logged of the change, before it is closed.
    pub fn fields(
        &self,
        reason: Option<&str>,
        puzzle_id: Option<i32>,
        puzzle_title: Option<&str>,
    ) -> (r: Fields)
        requires
            self.wf(),
        ensures
            r.pairs() == self.pairs(
                json::str_view(reason),
                puzzle_id,
                json::str_view(puzzle_title),
            ),
    {
        let puzzle = match puzzle_id {
            None => Json::Null,
            Some(id) => {
                let inner = Fields::new().put("id", Json::integer(id as i64)).put(
                    "title",
                    Json::opt_text(puzzle_title),
                );
                assert(inner.pairs() =~= seq![
                    ("id"@, json::int_json(id as int)),
                    ("title"@, json::opt_text_json(json::str_view(puzzle_title))),
                ]);
                inner.object()
            },
        };
        let fields = Fields::new().put("reason", Json::opt_text(reason)).put("puzzle", puzzle).put(
            "currency",
            self.currency_value(),
        ).put("delta", Json::integer(self.delta())).put("before", Json::integer(self.before)).put(
            "after",
            Json::integer(self.after),
        );
        assert(fields.pairs() =~= self.pairs(
            json::str_view(reason),
            puzzle_id,
            json::str_view(puzzle_title),
        ));
        fields
    }

    /// The change as it is logged.
    pub fn json(
        &self,
        reason: Option<&str>,
        puzzle_id: Option<i32>,
        puzzle_title: Option<&str>,
    ) -> (r: Json)
        requires
            self.wf(),
        ensures
            r@ == json::object_of(
                self.pairs(json::str_view(reason), puzzle_id, json::str_view(puzzle_title)),
            ),
    {
        self.fields(reason, puzzle_id, puzzle_title).object()
    }
}

/// Scopes and severities are told apart by the numbers that they are stored as; what is worse has the
/// higher number.
pub proof fn events_are_told_apart(a: EventScope, b: EventScope, s: EventSeverity, t: EventSeverity)
    ensures
        a.code_of() == b.code_of() ==> a == b,
        s.code_of() == t.code_of() ==> s == t,
        1 <= a.code_of() <= 4,
        0 <= s.code_of() <= 2,
        EventSeverity::Info.code_of() < EventSeverity::Warning.code_of(),
        EventSeverity::Warning.code_of() < EventSeverity::Error.code_of(),
{
}

/// An event of a team has the name, the references and the data that it is said to have, is one of the
/// team's activities, and is no warning.
pub proof fn team_events_hold_what_is_said(
    event: EventLogInput,
    name: Seq<char>,
    refs: EventRefs,
    data: J,
)
    requires
        event.is_team_event(name, refs, data),
    ensures
        event.event_type@ == name,
        event.event_scope == 1,
        event.severity == 0,
        event.game_id == refs.game_id,
        event.team_id == refs.team_id,
        event.user_id == refs.user_id,
        event.target_user_id == refs.target_user_id,
        event.puzzle_id == refs.puzzle_id,
        event.round_id == refs.round_id,
        event.hint_id == refs.hint_id,
        event.ticket_id == refs.ticket_id,
        event.submission_id == refs.submission_id,
        event.currency_id == refs.currency_id,
        event.delta_amount == refs.delta_amount,
        event.data@ == data,
{
}

/// What an event refers to is what its fields name, and an event that refers to nothing names nothing.
pub proof fn references_are_those_of_the_fields(event: EventLogInput)
    ensures
        ({
            let refs = event.refs();
            &&& refs.game_id == event.game_id && refs.team_id == event.team_id
            &&& refs.user_id == event.user_id && refs.target_user_id == event.target_user_id
            &&& refs.puzzle_id == event.puzzle_id && refs.round_id == event.round_id
            &&& refs.hint_id == event.hint_id && refs.ticket_id == event.ticket_id
            &&& refs.submission_id == event.submission_id
            &&& refs.currency_id == event.currency_id && refs.delta_amount == event.delta_amount
        }),
        no_refs().game_id is None && no_refs().team_id is None && no_refs().user_id is None
            && no_refs().target_user_id is None && no_refs().puzzle_id is None
            && no_refs().round_id is None && no_refs().hint_id is None && no_refs().ticket_id is None
            && no_refs().submission_id is None && no_refs().currency_id is None
            && no_refs().delta_amount is None,
{
}

/// A page of events holds between one and a hundred events, as many as asked for where that is
/// allowed, and starts where asked for, but not before the first.
pub proof fn pages_of_events_are_bounded(limit: int, offset: int)
    ensures
        1 <= page_limit(limit) <= 100,
        1 <= limit <= 100 ==> page_limit(limit) == limit,
        limit < 1 ==> page_limit(limit) == 1,
        limit > 100 ==> page_limit(limit) == 100,
        page_start(offset) >= 0,
        offset >= 0 ==> page_start(offset) == offset,
        offset < 0 ==> page_start(offset) == 0,
{
}

/// A change of a balance fits exactly where the difference does.
pub proof fn changes_fit(c: CurrencyEventData)
    ensures
        c.wf() <==> i64::MIN <= c.after - c.before <= i64::MAX,
        0 <= c.before && 0 <= c.after ==> c.wf(),
{
}

/// A puzzle is shown in an event by its number and its title.
pub proof fn puzzles_are_shown_by_number_and_title(id: int, title: Seq<char>)
    ensures
        puzzle_json(id, title) is Object,
        puzzle_json(id, title)->Object_0.dom().contains("id"@),
        puzzle_json(id, title)->Object_0["id"@] == json::int_json(id),
        puzzle_json(id, title)->Object_0.dom().contains("title"@),
        puzzle_json(id, title)->Object_0["title"@] == J::Text(title),
{
    reveal_strlit("id");
    reveal_strlit("title");
    assert("id"@.len() == 2 && "title"@.len() == 5);
    let pairs = seq![
        ("id"@, json::int_json(id)),
        ("title"@, J::Text(title)),
    ];
    json::keys_hold_their_values(pairs, 0);
    json::keys_hold_their_values(pairs, 1);
}

/// A currency is shown in an event by its number, its names and its precision.
pub proof fn currencies_are_shown_in_events(c: CurrencyEventData)
    ensures
        currency_json(c) is Object,
        currency_json(c)->Object_0.dom().contains("id"@),
        currency_json(c)->Object_0["id"@] == json::int_json(c.id as int),
        currency_json(c)->Object_0.dom().contains("slug"@),
        currency_json(c)->Object_0["slug"@] == J::Text(c.slug@),
        currency_json(c)->Object_0.dom().contains("name"@),
        currency_json(c)->Object_0["name"@] == J::Text(c.name@),
        currency_json(c)->Object_0.dom().contains("prec"@),
        currency_json(c)->Object_0["prec"@] == json::int_json(c.prec as int),
{
    reveal_strlit("id");
    reveal_strlit("slug");
    reveal_strlit("name");
    reveal_strlit("prec");
    assert("id"@.len() == 2 && "slug"@.len() == 4 && "name"@.len() == 4 && "prec"@.len() == 4);
    assert("name"@[0] == 'n' && "slug"@[0] == 's');
    assert("prec"@[0] == 'p' && "slug"@[0] == 's');
    assert("prec"@[0] == 'p' && "name"@[0] == 'n');
    let pairs = seq![
        ("id"@, json::int_json(c.id as int)),
        ("slug"@, J::Text(c.slug@)),
        ("name"@, J::Text(c.name@)),
        ("prec"@, json::int_json(c.prec as int)),
    ];
    json::keys_hold_their_values(pairs, 0);
    json::keys_hold_their_values(pairs, 1);
    json::keys_hold_their_values(pairs, 2);
    json::keys_hold_their_values(pairs, 3);
}

/// What has a number alone is shown by it.
pub proof fn ids_are_shown(id: int)
    ensures
        id_json(id) is Object,
        id_json(id)->Object_0.dom().contains("id"@),
        id_json(id)->Object_0["id"@] == json::int_json(id),
{
    json::keys_hold_their_values(seq![("id"@, json::int_json(id))], 0);
}

/// A puzzle that may be missing is shown as null where it is.
pub proof fn missing_puzzles_are_null(id: i32, title: Option<Seq<char>>)
    ensures
        opt_puzzle_json(None, title) == J::Null,
        opt_puzzle_json(Some(id), title) is Object,
        opt_puzzle_json(Some(id), title)->Object_0["id"@] == json::int_json(id as int),
        opt_puzzle_json(Some(id), title)->Object_0["title"@] == json::opt_text_json(title),
{
    reveal_strlit("id");
    reveal_strlit("title");
    assert("id"@.len() == 2 && "title"@.len() == 5);
    let pairs = seq![("id"@, json::int_json(id as int)), ("title"@, json::opt_text_json(title))];
    json::keys_hold_their_values(pairs, 0);
    json::keys_hold_their_values(pairs, 1);
}

/// A change of a balance is shown with what it held, what it holds and the difference, its currency,
/// the puzzle that it belongs to and the reason.
pub proof fn changes_of_balances_are_shown(c: CurrencyEventData, reason: Option<Seq<char>>, puzzle_id: Option<i32>, title: Option<Seq<char>>)
    ensures
        json::object_of(c.pairs(reason, puzzle_id, title)) is Object,
        json::object_of(c.pairs(reason, puzzle_id, title))->Object_0.dom().contains("reason"@),
        json::object_of(c.pairs(reason, puzzle_id, title))->Object_0["reason"@] == json::opt_text_json(reason),
        json::object_of(c.pairs(reason, puzzle_id, title))->Object_0.dom().contains("puzzle"@),
        json::object_of(c.pairs(reason, puzzle_id, title))->Object_0["puzzle"@] == opt_puzzle_json(puzzle_id, title),
        json::object_of(c.pairs(reason, puzzle_id, title))->Object_0.dom().contains("currency"@),
        json::object_of(c.pairs(reason, puzzle_id, title))->Object_0["currency"@] == currency_json(c),
        json::object_of(c.pairs(reason, puzzle_id, title))->Object_0.dom().contains("delta"@),
        json::object_of(c.pairs(reason, puzzle_id, title))->Object_0["delta"@] == json::int_json(c.after - c.before),
        json::object_of(c.pairs(reason, puzzle_id, title))->Object_0.dom().contains("before"@),
        json::object_of(c.pairs(reason, puzzle_id, title))->Object_0["before"@] == json::int_json(c.before as int),
        json::object_of(c.pairs(reason, puzzle_id, title))->Object_0.dom().contains("after"@),
        json::object_of(c.pairs(reason, puzzle_id, title))->Object_0["after"@] == json::int_json(c.after as int),
{
    reveal_strlit("reason");
    reveal_strlit("puzzle");
    reveal_strlit("currency");
    reveal_strlit("delta");
    reveal_strlit("before");
    reveal_strlit("after");
    assert("reason"@.len() == 6 && "puzzle"@.len() == 6 && "currency"@.len() == 8 && "delta"@.len() == 5 && "before"@.len() == 6 && "after"@.len() == 5);
    assert("puzzle"@[0] == 'p' && "reason"@[0] == 'r');
    assert("before"@[0] == 'b' && "reason"@[0] == 'r');
    assert("before"@[0] == 'b' && "puzzle"@[0] == 'p');
    assert("after"@[0] == 'a' && "delta"@[0] == 'd');
    let pairs = seq![
        ("reason"@, json::opt_text_json(reason)),
        ("puzzle"@, opt_puzzle_json(puzzle_id, title)),
        ("currency"@, currency_json(c)),
        ("delta"@, json::int_json(c.after - c.before)),
        ("before"@, json::int_json(c.before as int)),
        ("after"@, json::int_json(c.after as int)),
    ];
    json::keys_hold_their_values(pairs, 0);
    json::keys_hold_their_values(pairs, 1);
    json::keys_hold_their_values(pairs, 2);
    json::keys_hold_their_values(pairs, 3);
    json::keys_hold_their_values(pairs, 4);
    json::keys_hold_their_values(pairs, 5);
}

} // verus!
