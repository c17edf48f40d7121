//! Teams: who is in them, what they may do, and what they have.
pub mod currency;
pub mod growth;
pub mod members;

use vstd::prelude::*;

use crate::text;
use crate::clock::Timestamp;
use crate::db::event_log::{id_value, EventLogInput, EventRefs, EventScope, EventSeverity};
use crate::db::event_log;
use crate::db::feature::GameFeature;
use crate::db::patch;
use crate::db::patch::or_old;
use crate::db::team::currency::{tidy_reason, AdminTeamCurrencyData};
use crate::error::{fault, RbInternalError};
use crate::game::judge;
use crate::json::{Fields, Json, J};
use crate::json;
use crate::model::user::{avatar_url, AvatarProvider};
use crate::model::user;
use crate::text::{push_decimal, same};

verus! {

/// A team that is to be created.
#[derive(Debug)]
pub struct RbTeamPutData {
    pub name: String,
    pub pass: String,
    pub bio: String,
    pub game_id: i32,
}

/// Whether a team may use a feature.
#[derive(Debug, Clone, Copy, PartialEq, Eq, Structural)]
pub struct RbTeamFeatureData {
    pub feature: GameFeature,
    pub enabled: bool,
}

/// A member of a team.
#[derive(Debug)]
pub struct RbTeamMemberData {
    pub id: i32,
    pub is_captain: bool,
    pub nickname: String,
    pub avatar: String,
    pub ctime_at: Timestamp,
}

/// A team, as its members see it.
#[derive(Debug)]
pub struct RbTeamFullData {
    pub id: i32,
    pub name: String,
    pub is_banned: bool,
    pub is_locked: bool,
    pub is_beta: bool,
    pub pass: String,
    pub bio: String,
    pub ctime_at: Timestamp,
    pub finish_at: Option<Timestamp>,
    pub members: Vec<RbTeamMemberData>,
    pub features: Vec<RbTeamFeatureData>,
}

/// A member of a team, as it is stored.
#[derive(Debug)]
pub struct RbTeamMemberRow {
    pub id: i32,
    pub is_captain: bool,
    pub nickname: String,
    pub email: String,
    pub avatar_provider: i16,
    pub ctime_at: Timestamp,
}

/// A member of a team, with a picture in place of the mail address.
pub fn team_member(row: RbTeamMemberRow) -> (r: RbTeamMemberData)
    ensures
        r.id == row.id,
        r.is_captain == row.is_captain,
        r.nickname == row.nickname,
        r.ctime_at == row.ctime_at,
        r.avatar@ == user::avatar_address(
            user::mail_digest(row.email@),
            AvatarProvider::stored(row.avatar_provider),
        ),
{
    let avatar = avatar_url(row.email.as_str(), AvatarProvider::from_stored(row.avatar_provider));
    RbTeamMemberData {
        id: row.id,
        is_captain: row.is_captain,
        nickname: row.nickname,
        avatar,
        ctime_at: row.ctime_at,
    }
}

/// How an attempt to join a team ends.
#[derive(Debug, Clone, Copy, PartialEq, Eq, Structural)]
pub enum TeamJoinResult {
    NotFound,
    NotOpen,
    WrongPwd,
    TeamFull,
    Banned,
    ToMany,
    Joined,
}

impl TeamJoinResult {
    pub open spec fn code_of(self) -> i32 {
        match self {
            TeamJoinResult::NotFound => -104 as i32,
            TeamJoinResult::NotOpen => -5 as i32,
            TeamJoinResult::WrongPwd => -4 as i32,
            TeamJoinResult::TeamFull => -3 as i32,
            TeamJoinResult::Banned => -2 as i32,
            TeamJoinResult::ToMany => -1 as i32,
            TeamJoinResult::Joined => 0,
        }
    }

    /// The number that is answered.
    pub fn code(self) -> (r: i32)
        ensures
            r == self.code_of(),
    {
        match self {
            TeamJoinResult::NotFound => -104,
            TeamJoinResult::NotOpen => -5,
            TeamJoinResult::WrongPwd => -4,
            TeamJoinResult::TeamFull => -3,
            TeamJoinResult::Banned => -2,
            TeamJoinResult::ToMany => -1,
            TeamJoinResult::Joined => 0,
        }
    }
}

/// A team that a user wants to join.
#[derive(Debug)]
pub struct TeamJoinRow {
    pub is_banned: bool,
    pub pass: String,
    pub game_id: i32,
    pub team_open: bool,
}

/// What stands against joining a team, before its members are counted.
pub open spec fn join_refusal(team: Option<TeamJoinRow>, password: Seq<char>) -> Option<
    TeamJoinResult,
> {
    match team {
        None => Some(TeamJoinResult::NotFound),
        Some(team) => if !team.team_open {
            Some(TeamJoinResult::NotOpen)
        } else if team.is_banned {
            Some(TeamJoinResult::Banned)
        } else if team.pass@ != password {
            Some(TeamJoinResult::WrongPwd)
        } else {
            None
        },
    }
}

/// What stands against joining a team, before its members are counted.
pub fn check_join(team: &Option<TeamJoinRow>, password: &str) -> (r: Option<TeamJoinResult>)
    ensures
        r == join_refusal(*team, password@),
{
    match team {
        None => Some(TeamJoinResult::NotFound),
        Some(team) => {
            if !team.team_open {
                Some(TeamJoinResult::NotOpen)
            } else if team.is_banned {
                Some(TeamJoinResult::Banned)
            } else if !same(team.pass.as_str(), password) {
                Some(TeamJoinResult::WrongPwd)
            } else {
                None
            }
        },
    }
}

/// Whether a team takes one more member, given the game's limit and the number of members. The
/// game must be there.
pub fn check_room(max_members: Option<Option<i32>>, member_count: i64) -> (r: Result<
    Option<TeamJoinResult>,
    RbInternalError,
>)
    ensures
        match max_members {
            None => r matches Err(e) && e.text() == "Game not found"@,
            Some(None) => r == Ok::<_, RbInternalError>(None::<TeamJoinResult>),
            Some(Some(max)) => r == Ok::<_, RbInternalError>(
                if member_count >= max {
                    Some(TeamJoinResult::TeamFull)
                } else {
                    None
                },
            ),
        },
{
    match max_members {
        None => Err(fault("Game not found")),
        Some(None) => Ok(None),
        Some(Some(max)) => {
            if member_count >= max as i64 {
                Ok(Some(TeamJoinResult::TeamFull))
            } else {
                Ok(None)
            }
        },
    }
}

/// How an attempt to join ends, once the member was to be stored.
pub fn join(stored: bool) -> (r: TeamJoinResult)
    ensures
        r == (if stored {
            TeamJoinResult::Joined
        } else {
            TeamJoinResult::ToMany
        }),
{
    if stored {
        TeamJoinResult::Joined
    } else {
        TeamJoinResult::ToMany
    }
}

/// How an attempt to create a team ends.
#[derive(Debug, Clone, Copy, PartialEq, Eq, Structural)]
pub enum TeamCreateResult {
    NotOpen,
    ToMany,
    Created(i32),
}

/// Whether a team may be created: the game must be there, and open for new teams.
pub fn may_create(team_open: Option<bool>) -> (r: bool)
    ensures
        r == (team_open == Some(true)),
{
    match team_open {
        Some(open) => open,
        None => false,
    }
}

/// How an attempt to create a team ends, given the new team and whether its captain was stored.
pub fn user_create(team_open: Option<bool>, team_id: i32, captain_stored: bool) -> (r:
    TeamCreateResult)
    ensures
        r == (if team_open != Some(true) {
            TeamCreateResult::NotOpen
        } else if !captain_stored {
            TeamCreateResult::ToMany
        } else {
            TeamCreateResult::Created(team_id)
        }),
{
    if !may_create(team_open) {
        TeamCreateResult::NotOpen
    } else if !captain_stored {
        TeamCreateResult::ToMany
    } else {
        TeamCreateResult::Created(team_id)
    }
}

/// An empty object.
pub open spec fn no_data() -> J {
    json::object_of(Seq::empty())
}

fn no_value() -> (r: Json)
    ensures
        r@ == no_data(),
{
    Fields::new().object()
}

/// The event of a user who does something in a team.
fn member_event(event_type: &'static str, game_id: i32, team_id: i32, user_id: i32, data: Json) -> (r:
    EventLogInput)
    ensures
        r.is_team_event(
            event_type@,
            (EventRefs {
                game_id: Some(game_id),
                team_id: Some(team_id),
                user_id: Some(user_id),
                ..event_log::no_refs()
            }),
            data@,
        ),
{
    let mut event = EventLogInput::team_activity(event_type, data);
    event.game_id = Some(game_id);
    event.team_id = Some(team_id);
    event.user_id = Some(user_id);
    event
}

/// The event of a user who has joined a team.
pub fn member_joined(game_id: i32, team_id: i32, user_id: i32) -> (r: EventLogInput)
    ensures
        r.is_team_event(
            "team.member.joined"@,
            (EventRefs {
                game_id: Some(game_id),
                team_id: Some(team_id),
                user_id: Some(user_id),
                ..event_log::no_refs()
            }),
            no_data(),
        ),
{
    member_event("team.member.joined", game_id, team_id, user_id, no_value())
}

/// The event of a user who has left a team.
pub fn member_left(game_id: i32, team_id: i32, user_id: i32) -> (r: EventLogInput)
    ensures
        r.is_team_event(
            "team.member.left"@,
            (EventRefs {
                game_id: Some(game_id),
                team_id: Some(team_id),
                user_id: Some(user_id),
                ..event_log::no_refs()
            }),
            no_data(),
        ),
{
    member_event("team.member.left", game_id, team_id, user_id, no_value())
}

/// The event of a user who has created a team.
pub fn team_created(data: &RbTeamPutData, team_id: i32, user_id: i32) -> (r: EventLogInput)
    ensures
        r.is_team_event(
            "team.created"@,
            (EventRefs {
                game_id: Some(data.game_id),
                team_id: Some(team_id),
                user_id: Some(user_id),
                ..event_log::no_refs()
            }),
            json::object_of(
                seq![
                    (
                        "team"@,
                        json::object_of(
                            seq![("id"@, json::int_json(team_id as int)), ("name"@, J::Text(data.name@))],
                        ),
                    ),
                ],
            ),
        ),
{
    let team = Fields::new().put("id", Json::integer(team_id as i64)).put(
        "name",
        Json::text(data.name.as_str()),
    );
    assert(team.pairs() =~= seq![("id"@, json::int_json(team_id as int)), ("name"@, J::Text(data.name@))]);
    let ghost shown = json::object_of(team.pairs());
    let fields = Fields::new().put("team", team.object());
    assert(fields.pairs() =~= seq![("team"@, shown)]);
    member_event("team.created", data.game_id, team_id, user_id, fields.object())
}

/// The event of a member who has been sent away: a warning.
pub fn member_kicked(game_id: i32, team_id: i32, user_id: i32) -> (r: EventLogInput)
    ensures
        r.event_type@ == "team.member.kicked"@,
        r.event_scope == EventScope::TeamActivity.code_of(),
        r.severity == EventSeverity::Warning.code_of(),
        r.refs() == (EventRefs {
            game_id: Some(game_id),
            team_id: Some(team_id),
            target_user_id: Some(user_id),
            ..event_log::no_refs()
        }),
        r.data@ == no_data(),
{
    let mut event = EventLogInput::team_activity("team.member.kicked", no_value());
    event.severity = EventSeverity::Warning.into();
    event.game_id = Some(game_id);
    event.team_id = Some(team_id);
    event.target_user_id = Some(user_id);
    event
}

/// The event of a member who has become captain.
pub fn member_promoted(game_id: i32, team_id: i32, user_id: i32) -> (r: EventLogInput)
    ensures
        r.is_team_event(
            "team.member.promoted"@,
            (EventRefs {
                game_id: Some(game_id),
                team_id: Some(team_id),
                target_user_id: Some(user_id),
                ..event_log::no_refs()
            }),
            no_data(),
        ),
{
    let mut event = EventLogInput::team_activity("team.member.promoted", no_value());
    event.game_id = Some(game_id);
    event.team_id = Some(team_id);
    event.target_user_id = Some(user_id);
    event
}

/// The event of a team that is no more: a warning that refers to the game alone.
pub fn team_disbanded(game_id: i32, team_id: i32) -> (r: EventLogInput)
    ensures
        r.event_type@ == "team.disbanded"@,
        r.event_scope == EventScope::TeamActivity.code_of(),
        r.severity == EventSeverity::Warning.code_of(),
        r.refs() == (EventRefs { game_id: Some(game_id), ..event_log::no_refs() }),
        r.data@ == json::object_of(seq![("team"@, event_log::id_json(team_id as int))]),
{
    let fields = Fields::new().put("team", id_value(team_id));
    assert(fields.pairs() =~= seq![("team"@, event_log::id_json(team_id as int))]);
    let mut event = EventLogInput::team_activity("team.disbanded", fields.object());
    event.severity = EventSeverity::Warning.into();
    event.game_id = Some(game_id);
    event
}

/// Whether a team may be disbanded, given its members: a team without members, and one that has
/// started, has none to show.
pub fn disband(members: &Vec<i32>) -> (r: bool)
    ensures
        r == (members@.len() > 0),
{
    members.len() > 0
}

/// What a captain changes of a team.
#[derive(Debug)]
pub struct UserUpdateData {
    pub name: Option<String>,
    pub pass: Option<String>,
    pub bio: Option<String>,
}

/// Whether a text, where there is one, has a length within bounds.
pub open spec fn length_within(text: Option<String>, min: int, max: int) -> bool {
    text matches Some(s) ==> min <= s@.len() <= max
}

fn has_length(text: &Option<String>, min: usize, max: usize) -> (r: bool)
    ensures
        r == length_within(*text, min as int, max as int),
{
    match text {
        Some(s) => {
            let n = s.as_str().unicode_len();
            min <= n && n <= max
        },
        None => true,
    }
}

impl UserUpdateData {
    /// Whether the texts are neither too short nor too long.
    pub fn valid(&self) -> (r: bool)
        ensures
            r == (length_within(self.name, 1, 40) && length_within(self.pass, 8, 32)
                && length_within(self.bio, 0, 200)),
    {
        has_length(&self.name, 1, 40) && has_length(&self.pass, 8, 32) && has_length(
            &self.bio,
            0,
            200,
        )
    }
}

/// The columns that a captain changes, in their order.
pub open spec fn changed_columns(data: UserUpdateData) -> Seq<Seq<char>> {
    (if data.name is Some {
        seq!["name"@]
    } else {
        Seq::empty()
    }) + (if data.pass is Some {
        seq!["pass"@]
    } else {
        Seq::empty()
    }) + (if data.bio is Some {
        seq!["bio"@]
    } else {
        Seq::empty()
    })
}

/// An assignment of each column to the parameter of its place, with commas between them.
pub open spec fn assignments(columns: Seq<Seq<char>>) -> Seq<char>
    decreases columns.len(),
{
    if columns.len() == 0 {
        Seq::empty()
    } else {
        (if columns.len() == 1 {
            Seq::empty()
        } else {
            assignments(columns.drop_last()) + ", "@
        }) + columns.last() + " = $"@ + text::decimal(columns.len() as int)
    }
}

/// The statement that changes a team: after the values of the columns come the user and the game.
pub open spec fn update_statement(data: UserUpdateData) -> Seq<char> {
    let columns = changed_columns(data);
    "UPDATE rb_team SET "@ + assignments(columns)
        + " WHERE id = (SELECT team_id FROM rb_team_member tm WHERE user_id = $"@ + text::decimal(
        columns.len() as int + 1,
    ) + " AND game_id = $"@ + text::decimal(columns.len() as int + 2) + " AND is_captain)"@ + (if data.name is Some {
        " AND NOT is_locked"@
    } else {
        Seq::empty()
    }) + " RETURNING id;"@
}

/// What the names of columns say.
pub open spec fn names(columns: Seq<&'static str>) -> Seq<Seq<char>> {
    columns.map_values(|c: &'static str| c@)
}

fn columns_of(data: &UserUpdateData) -> (r: Vec<&'static str>)
    ensures
        names(r@) == changed_columns(*data),
        r@.len() <= 3,
{
    let mut columns: Vec<&'static str> = Vec::new();
    if data.name.is_some() {
        columns.push("name");
    }
    if data.pass.is_some() {
        columns.push("pass");
    }
    if data.bio.is_some() {
        columns.push("bio");
    }
    assert(names(columns@) =~= changed_columns(*data));
    columns
}

/// The statement that changes a team, where anything is to be changed: it takes the values of the
/// columns, then the user, then the game.
pub fn user_update(data: &UserUpdateData) -> (r: Option<String>)
    ensures
        match r {
            Some(query) => changed_columns(*data).len() > 0 && query@ == update_statement(*data),
            None => changed_columns(*data).len() == 0,
        },
{
    let columns = columns_of(data);
    let ghost view = names(columns@);
    if columns.len() == 0 {
        return None;
    }
    let mut query = "UPDATE rb_team SET ".to_owned();
    let mut i: usize = 0;
    proof {
        assert(query@ =~= "UPDATE rb_team SET "@ + assignments(view.take(0)));
    }
    while i < columns.len()
        invariant
            i <= columns@.len() <= 3,
            view == names(columns@),
            query@ == "UPDATE rb_team SET "@ + assignments(view.take(i as int)),
        decreases columns@.len() - i,
    {
        let ghost before = query@;
        if i > 0 {
            query.append(", ");
        }
        query.append(columns[i]);
        query.append(" = $");
        push_decimal(&mut query, (i + 1) as i64);
        proof {
            let now = view.take(i + 1);
            assert(now.drop_last() =~= view.take(i as int));
            assert(now.last() == columns@[i as int]@);
            assert(query@ =~= "UPDATE rb_team SET "@ + assignments(now));
        }
        i += 1;
    }
    assert(view.take(i as int) =~= view);
    query.append(" WHERE id = (SELECT team_id FROM rb_team_member tm WHERE user_id = $");
    push_decimal(&mut query, (i + 1) as i64);
    query.append(" AND game_id = $");
    push_decimal(&mut query, (i + 2) as i64);
    query.append(" AND is_captain)");
    if data.name.is_some() {
        query.append(" AND NOT is_locked");
    }
    query.append(" RETURNING id;");
    assert(query@ =~= update_statement(*data));
    Some(query)
}

/// The event of a team that its captain has changed: it tells what was changed, and not to what.
pub fn team_updated(data: &UserUpdateData, game_id: i32, team_id: i32, user_id: i32) -> (r:
    EventLogInput)
    ensures
        r.is_team_event(
            "team.updated"@,
            (EventRefs {
                game_id: Some(game_id),
                team_id: Some(team_id),
                user_id: Some(user_id),
                ..event_log::no_refs()
            }),
            json::object_of(
                seq![
                    (
                        "fields"@,
                        json::object_of(
                            seq![
                                ("name"@, J::Bool(data.name is Some)),
                                ("pass"@, J::Bool(data.pass is Some)),
                                ("bio"@, J::Bool(data.bio is Some)),
                            ],
                        ),
                    ),
                ],
            ),
        ),
{
    let changed = Fields::new().put("name", Json::Bool(data.name.is_some())).put(
        "pass",
        Json::Bool(data.pass.is_some()),
    ).put("bio", Json::Bool(data.bio.is_some()));
    assert(changed.pairs() =~= seq![
        ("name"@, J::Bool(data.name is Some)),
        ("pass"@, J::Bool(data.pass is Some)),
        ("bio"@, J::Bool(data.bio is Some)),
    ]);
    let ghost shown = json::object_of(changed.pairs());
    let fields = Fields::new().put("fields", changed.object());
    assert(fields.pairs() =~= seq![("fields"@, shown)]);
    member_event("team.updated", game_id, team_id, user_id, fields.object())
}

/// A member of a team, as everybody sees it.
#[derive(Debug)]
pub struct RbTeamMemberShowData {
    pub id: i32,
    pub is_captain: bool,
    pub nickname: String,
}

/// A team, as everybody sees it.
#[derive(Debug)]
pub struct RbTeamShowData {
    pub id: i32,
    pub name: String,
    pub is_banned: bool,
    pub is_locked: bool,
    pub bio: String,
    pub finish_at: Option<Timestamp>,
    pub members: Vec<RbTeamMemberShowData>,
}

/// Whether a user leads a team: nobody leads a team that they are not in.
pub fn is_leader_in_game(is_captain: Option<bool>) -> (r: bool)
    ensures
        r == (is_captain == Some(true)),
{
    match is_captain {
        Some(leads) => leads,
        None => false,
    }
}

/// A team in a list for administrators.
#[derive(Debug)]
pub struct AdminTeamListItem {
    pub id: i32,
    pub name: String,
    pub is_banned: bool,
    pub is_locked: bool,
    pub is_beta: bool,
    pub finish_at: Option<Timestamp>,
    pub member_count: i64,
    pub captain_id: Option<i32>,
    pub captain_name: Option<String>,
}

/// A user who could be put into a team.
#[derive(Debug)]
pub struct AdminUserOption {
    pub id: i32,
    pub email: String,
    pub nickname: String,
    pub in_team_id: Option<i32>,
    pub in_team_name: Option<String>,
}

/// A team, as administrators see it.
#[derive(Debug)]
pub struct AdminTeamDetail {
    pub id: i32,
    pub name: String,
    pub pass: String,
    pub bio: String,
    pub is_banned: bool,
    pub is_locked: bool,
    pub is_beta: bool,
    pub game_id: i32,
    pub ctime_at: Timestamp,
    pub finish_at: Option<Timestamp>,
    pub members: Vec<RbTeamMemberData>,
    pub features: Vec<RbTeamFeatureData>,
    pub currency: Vec<AdminTeamCurrencyData>,
}

/// A team that an administrator creates.
#[derive(Debug)]
pub struct AdminTeamCreateData {
    pub name: String,
    pub pass: String,
    pub bio: String,
    pub captain_user_id: i32,
}

impl AdminTeamCreateData {
    /// Whether the texts are neither too short nor too long.
    pub fn valid(&self) -> (r: bool)
        ensures
            r == (1 <= self.name@.len() <= 40 && 1 <= self.pass@.len() <= 32 && self.bio@.len()
                <= 200),
    {
        let name = self.name.as_str().unicode_len();
        let pass = self.pass.as_str().unicode_len();
        1 <= name && name <= 40 && 1 <= pass && pass <= 32 && self.bio.as_str().unicode_len() <= 200
    }
}

/// Whether a team may use a feature, as an administrator wants it.
#[derive(Debug, Clone, Copy, PartialEq, Eq, Structural)]
pub struct AdminTeamFeatureDataInput {
    pub feature: GameFeature,
    pub enabled: bool,
}

/// Whether a feature can be taken from a single team.
pub open spec fn per_team(feature: GameFeature) -> bool {
    feature is DirectMessage || feature is PuzzleTicket || feature is Leaderboard
}

impl AdminTeamFeatureDataInput {
    /// Whether the feature can be taken from a single team.
    pub fn valid(&self) -> (r: bool)
        ensures
            r == per_team(self.feature),
    {
        matches!(
            self.feature,
            GameFeature::DirectMessage | GameFeature::PuzzleTicket | GameFeature::Leaderboard
        )
    }
}

/// What an administrator changes of a team.
#[derive(Debug)]
pub struct AdminTeamUpdateData {
    pub name: Option<String>,
    pub pass: Option<String>,
    pub bio: Option<String>,
    pub is_banned: Option<bool>,
    pub is_locked: Option<bool>,
    pub is_beta: Option<bool>,
    pub features: Option<Vec<AdminTeamFeatureDataInput>>,
    pub reason: Option<String>,
}

impl AdminTeamUpdateData {
    /// Whether the texts are neither too short nor too long.
    pub fn valid(&self) -> (r: bool)
        ensures
            r == (length_within(self.name, 1, 40) && length_within(self.pass, 1, 32)
                && length_within(self.bio, 0, 200) && length_within(self.reason, 0, 500)),
    {
        has_length(&self.name, 1, 40) && has_length(&self.pass, 1, 32) && has_length(
            &self.bio,
            0,
            200,
        ) && has_length(&self.reason, 0, 500)
    }
}

/// Which teams an administrator asks for.
#[derive(Debug, Clone, Copy)]
pub struct AdminTeamListFilter<'a> {
    pub search: &'a str,
    pub is_banned: Option<bool>,
    pub is_locked: Option<bool>,
    pub is_finished: Option<bool>,
    pub is_beta: Option<bool>,
    pub limit: i64,
    pub offset: i64,
}

/// Whether a team may use a feature, as it is stored.
#[derive(Debug, Clone, Copy, PartialEq, Eq, Structural)]
pub struct TeamFeatureRow {
    pub feature_type: i16,
    pub enabled: bool,
}

/// Whether a team may use a feature: what the first row of that feature says, and yes where there
/// is none.
pub open spec fn enabled_in(rows: Seq<TeamFeatureRow>, feature: GameFeature) -> bool
    decreases rows.len(),
{
    if rows.len() == 0 {
        true
    } else if rows[0].feature_type == feature.code_of() {
        rows[0].enabled
    } else {
        enabled_in(rows.skip(1), feature)
    }
}

fn is_enabled(rows: &Vec<TeamFeatureRow>, feature: GameFeature) -> (r: bool)
    ensures
        r == enabled_in(rows@, feature),
{
    let code = feature.value();
    let mut i: usize = 0;
    assert(rows@.skip(0) =~= rows@);
    while i < rows.len()
        invariant
            i <= rows@.len(),
            code == feature.code_of(),
            enabled_in(rows@, feature) == enabled_in(rows@.skip(i as int), feature),
        decreases rows@.len() - i,
    {
        assert(rows@.skip(i as int)[0] == rows@[i as int]);
        assert(rows@.skip(i as int).skip(1) =~= rows@.skip(i + 1));
        if rows[i].feature_type == code {
            return rows[i].enabled;
        }
        i += 1;
    }
    true
}

/// What a team may use, of the features that can be taken from a single team.
pub fn team_features(rows: &Vec<TeamFeatureRow>) -> (r: Vec<RbTeamFeatureData>)
    ensures
        r@ == seq![
            RbTeamFeatureData {
                feature: GameFeature::DirectMessage,
                enabled: enabled_in(rows@, GameFeature::DirectMessage),
            },
            RbTeamFeatureData {
                feature: GameFeature::PuzzleTicket,
                enabled: enabled_in(rows@, GameFeature::PuzzleTicket),
            },
            RbTeamFeatureData {
                feature: GameFeature::Leaderboard,
                enabled: enabled_in(rows@, GameFeature::Leaderboard),
            },
        ],
{
    let mut features: Vec<RbTeamFeatureData> = Vec::new();
    features.push(
        RbTeamFeatureData {
            feature: GameFeature::DirectMessage,
            enabled: is_enabled(rows, GameFeature::DirectMessage),
        },
    );
    features.push(
        RbTeamFeatureData {
            feature: GameFeature::PuzzleTicket,
            enabled: is_enabled(rows, GameFeature::PuzzleTicket),
        },
    );
    features.push(
        RbTeamFeatureData {
            feature: GameFeature::Leaderboard,
            enabled: is_enabled(rows, GameFeature::Leaderboard),
        },
    );
    features
}

/// How an attempt of an administrator to create a team ends.
#[derive(Debug, Clone, Copy, PartialEq, Eq, Structural)]
pub enum AdminTeamCreateResult {
    UserConflict,
    NotFound,
    Created(i32),
}

/// How an attempt of an administrator to create a team ends, given whether the captain is there,
/// whether they are in a team of the game already, and the new team, where the game is there.
pub fn admin_create(user_exists: bool, conflict: bool, team_id: Option<i32>) -> (r:
    AdminTeamCreateResult)
    ensures
        r == (if !user_exists {
            AdminTeamCreateResult::NotFound
        } else if conflict {
            AdminTeamCreateResult::UserConflict
        } else {
            match team_id {
                Some(id) => AdminTeamCreateResult::Created(id),
                None => AdminTeamCreateResult::NotFound,
            }
        }),
{
    if !user_exists {
        AdminTeamCreateResult::NotFound
    } else if conflict {
        AdminTeamCreateResult::UserConflict
    } else {
        match team_id {
            Some(id) => AdminTeamCreateResult::Created(id),
            None => AdminTeamCreateResult::NotFound,
        }
    }
}

/// Whether features can all be set: each can be taken from a single team, and none is named twice.
pub open spec fn settable(features: Seq<AdminTeamFeatureDataInput>) -> bool {
    &&& forall|i: int| 0 <= i < features.len() ==> per_team((#[trigger] features[i]).feature)
    &&& forall|i: int, j: int|
        0 <= i < j < features.len() ==> (#[trigger] features[i]).feature != (
        #[trigger] features[j]).feature
}

/// Checks that the features that an administrator names can all be set.
pub fn check_features(features: &Option<Vec<AdminTeamFeatureDataInput>>) -> (r: Result<
    (),
    RbInternalError,
>)
    ensures
        match r {
            Ok(_) => features matches Some(fs) ==> settable(fs@),
            Err(e) => features matches Some(fs) && !settable(fs@) && e.text()
                == "Invalid team feature update"@,
        },
{
    match features {
        None => Ok(()),
        Some(fs) => {
            if all_settable(fs) {
                Ok(())
            } else {
                Err(fault("Invalid team feature update"))
            }
        },
    }
}

fn all_settable(features: &Vec<AdminTeamFeatureDataInput>) -> (r: bool)
    ensures
        r == settable(features@),
{
    let mut j: usize = 0;
    while j < features.len()
        invariant
            j <= features@.len(),
            forall|i: int| 0 <= i < j ==> per_team((#[trigger] features@[i]).feature),
            forall|a: int, b: int|
                0 <= a < b < j ==> (#[trigger] features@[a]).feature != (
                #[trigger] features@[b]).feature,
        decreases features@.len() - j,
    {
        if !features[j].valid() {
            assert(!per_team(features@[j as int].feature));
            return false;
        }
        let mut i: usize = 0;
        while i < j
            invariant
                i <= j < features@.len(),
                forall|k: int|
                    0 <= k < i ==> (#[trigger] features@[k]).feature
                        != features@[j as int].feature,
            decreases j - i,
        {
            if features[i].feature == features[j].feature {
                assert(features@[i as int].feature == features@[j as int].feature);
                return false;
            }
            i += 1;
        }
        j += 1;
    }
    true
}

/// What a team may do, as it is stored.
#[derive(Debug, Clone, Copy, PartialEq, Eq, Structural)]
pub struct TeamAccessRow {
    pub is_banned: bool,
    pub is_locked: bool,
    pub is_beta: bool,
}

/// How a change of a team is written in its event.
pub open spec fn team_change_json(action: Seq<char>) -> J {
    json::object_of(seq![("target"@, J::Text("team"@)), ("action"@, J::Text(action))])
}

fn team_change(action: &str) -> (r: Json)
    ensures
        r@ == team_change_json(action@),
{
    let fields = Fields::new().put("target", Json::text("team")).put("action", Json::text(action));
    assert(fields.pairs() =~= seq![("target"@, J::Text("team"@)), ("action"@, J::Text(action@))]);
    fields.object()
}

/// How a change of a team's feature is written in its event.
pub open spec fn feature_change_json(input: AdminTeamFeatureDataInput) -> J {
    json::object_of(
        seq![
            ("target"@, J::Text("feature"@)),
            ("feature"@, J::Text(input.feature.word_of())),
            (
                "action"@,
                J::Text(
                    if input.enabled {
                        "unbanned"@
                    } else {
                        "banned"@
                    },
                ),
            ),
        ],
    )
}

fn feature_change(input: AdminTeamFeatureDataInput) -> (r: Json)
    ensures
        r@ == feature_change_json(input),
{
    let action = if input.enabled {
        "unbanned"
    } else {
        "banned"
    };
    let fields = Fields::new().put("target", Json::text("feature")).put(
        "feature",
        Json::text(input.feature.word()),
    ).put("action", Json::text(action));
    assert(fields.pairs() =~= seq![
        ("target"@, J::Text("feature"@)),
        ("feature"@, J::Text(input.feature.word_of())),
        ("action"@, J::Text(action@)),
    ]);
    fields.object()
}

/// The change of one mark of a team, where there is one.
pub open spec fn mark_change(wanted: Option<bool>, current: bool, on: Seq<char>, off: Seq<char>) -> Seq<
    J,
> {
    match wanted {
        Some(mark) if mark != current => seq![
            team_change_json(
                if mark {
                    on
                } else {
                    off
                },
            ),
        ],
        _ => Seq::empty(),
    }
}

/// The changes of a team's features, in the order in which they are named.
pub open spec fn feature_changes(
    features: Seq<AdminTeamFeatureDataInput>,
    rows: Seq<TeamFeatureRow>,
) -> Seq<J>
    decreases features.len(),
{
    if features.len() == 0 {
        Seq::empty()
    } else {
        let rest = feature_changes(features.drop_last(), rows);
        if enabled_in(rows, features.last().feature) != features.last().enabled {
            rest.push(feature_change_json(features.last()))
        } else {
            rest
        }
    }
}

/// All that an administrator's update changes of what a team may do.
pub open spec fn access_changes(
    current: TeamAccessRow,
    rows: Seq<TeamFeatureRow>,
    data: AdminTeamUpdateData,
) -> Seq<J> {
    mark_change(data.is_banned, current.is_banned, "banned"@, "unbanned"@) + mark_change(
        data.is_locked,
        current.is_locked,
        "locked"@,
        "unlocked"@,
    ) + mark_change(data.is_beta, current.is_beta, "beta_enabled"@, "beta_disabled"@) + (
    match data.features {
        Some(features) => feature_changes(features@, rows),
        None => Seq::empty(),
    })
}

fn push_mark(changes: &mut Vec<Json>, wanted: Option<bool>, current: bool, on: &str, off: &str)
    ensures
        json::array_view(final(changes)@) == json::array_view(old(changes)@) + mark_change(
            wanted,
            current,
            on@,
            off@,
        ),
{
    let ghost before = changes@;
    if let Some(mark) = wanted {
        if mark != current {
            let action = if mark {
                on
            } else {
                off
            };
            changes.push(team_change(action));
            assert(changes@.drop_last() =~= before);
        }
    }
    assert(json::array_view(changes@) =~= json::array_view(before) + mark_change(wanted, current, on@, off@));
}

fn push_features(
    changes: &mut Vec<Json>,
    features: &Vec<AdminTeamFeatureDataInput>,
    rows: &Vec<TeamFeatureRow>,
)
    ensures
        json::array_view(final(changes)@) == json::array_view(old(changes)@) + feature_changes(
            features@,
            rows@,
        ),
{
    let ghost before = json::array_view(changes@);
    let mut i: usize = 0;
    proof {
        assert(json::array_view(changes@) =~= before + feature_changes(features@.take(0), rows@));
    }
    while i < features.len()
        invariant
            i <= features@.len(),
            before == json::array_view(old(changes)@),
            json::array_view(changes@) == before + feature_changes(features@.take(i as int), rows@),
        decreases features@.len() - i,
    {
        let feature = features[i];
        proof {
            assert(features@.take(i + 1).drop_last() =~= features@.take(i as int));
            assert(features@.take(i + 1).last() == feature);
        }
        if is_enabled(rows, feature.feature) != feature.enabled {
            let ghost held = changes@;
            changes.push(feature_change(feature));
            proof {
                assert(changes@.drop_last() =~= held);
                assert(json::array_view(changes@) =~= before + feature_changes(
                    features@.take(i + 1),
                    rows@,
                ));
            }
        }
        i += 1;
    }
    assert(features@.take(i as int) =~= features@);
}

/// Whether an event tells of changes of what a team may do: there is one if and only if there are
/// such changes.
pub open spec fn tells_changes(
    event: Option<EventLogInput>,
    game_id: i32,
    team_id: i32,
    actor_id: i32,
    changes: Seq<J>,
    data: AdminTeamUpdateData,
) -> bool {
    match event {
        None => changes.len() == 0,
        Some(event) => {
            &&& changes.len() > 0
            &&& event.event_type@ == "team.access_changed"@
            &&& event.event_scope == EventScope::TeamActivity.code_of()
            &&& event.severity == EventSeverity::Warning.code_of()
            &&& event.refs() == (EventRefs {
                game_id: Some(game_id),
                team_id: Some(team_id),
                user_id: Some(actor_id),
                ..event_log::no_refs()
            })
            &&& event.data@ == json::object_of(
                seq![
                    ("staff"@, J::Bool(true)),
                    (
                        "reason"@,
                        json::opt_text_json(currency::reason_left(judge::text_in(data.reason))),
                    ),
                    ("changes"@, J::Array(changes)),
                ],
            )
        },
    }
}

/// A team, as it is stored.
#[derive(Debug)]
pub struct StoredTeam {
    pub name: String,
    pub pass: String,
    pub bio: String,
    pub access: TeamAccessRow,
}

/// Whether a team is what an administrator's update leaves of it: what is named replaces what was
/// there, and the rest stays.
pub open spec fn changed_team(new: StoredTeam, old: StoredTeam, data: AdminTeamUpdateData) -> bool {
    &&& new.name@ == patch::named_or(judge::text_in(data.name), old.name@)
    &&& new.pass@ == patch::named_or(judge::text_in(data.pass), old.pass@)
    &&& new.bio@ == patch::named_or(judge::text_in(data.bio), old.bio@)
    &&& new.access == (TeamAccessRow {
        is_banned: patch::named_or(data.is_banned, old.access.is_banned),
        is_locked: patch::named_or(data.is_locked, old.access.is_locked),
        is_beta: patch::named_or(data.is_beta, old.access.is_beta),
    })
}

/// Whether a row speaks of a feature.
pub open spec fn speaks_of(rows: Seq<TeamFeatureRow>, code: i16) -> bool {
    exists|i: int| 0 <= i < rows.len() && (#[trigger] rows[i]).feature_type == code
}

/// The rows of a team's features after one was set: its row is changed where it has one, and added
/// where it has none.
pub open spec fn with_feature(rows: Seq<TeamFeatureRow>, set: AdminTeamFeatureDataInput) -> Seq<
    TeamFeatureRow,
> {
    let code = set.feature.code_of();
    let new = TeamFeatureRow { feature_type: code, enabled: set.enabled };
    if speaks_of(rows, code) {
        rows.map_values(
            |row: TeamFeatureRow|
                if row.feature_type == code {
                    new
                } else {
                    row
                },
        )
    } else {
        rows.push(new)
    }
}

/// The rows of a team's features after some were set, one after the other.
pub open spec fn with_features(
    rows: Seq<TeamFeatureRow>,
    features: Seq<AdminTeamFeatureDataInput>,
) -> Seq<TeamFeatureRow>
    decreases features.len(),
{
    if features.len() == 0 {
        rows
    } else {
        with_feature(with_features(rows, features.drop_last()), features.last())
    }
}

/// The rows of a team's features after an administrator's update.
pub open spec fn features_after(rows: Seq<TeamFeatureRow>, data: AdminTeamUpdateData) -> Seq<
    TeamFeatureRow,
> {
    match data.features {
        Some(features) => with_features(rows, features@),
        None => rows,
    }
}

fn set_feature(rows: &mut Vec<TeamFeatureRow>, set: AdminTeamFeatureDataInput)
    ensures
        final(rows)@ == with_feature(old(rows)@, set),
{
    let code = set.feature.value();
    let new = TeamFeatureRow { feature_type: code, enabled: set.enabled };
    let ghost before = rows@;
    let mut found = false;
    let mut i: usize = 0;
    while i < rows.len()
        invariant
            i <= rows@.len(),
            rows@.len() == before.len(),
            before == old(rows)@,
            code == set.feature.code_of(),
            new == (TeamFeatureRow { feature_type: code, enabled: set.enabled }),
            found <==> speaks_of(before.take(i as int), code),
            forall|k: int|
                0 <= k < i ==> #[trigger] rows@[k] == (if before[k].feature_type == code {
                    new
                } else {
                    before[k]
                }),
            forall|k: int| i <= k < before.len() ==> #[trigger] rows@[k] == before[k],
        decreases rows@.len() - i,
    {
        let ghost seen = found;
        if rows[i].feature_type == code {
            rows.set(i, new);
            found = true;
        }
        proof {
            assert(before.take(i + 1)[i as int] == before[i as int]);
            if seen {
                let k = choose|k: int|
                    0 <= k < i && (#[trigger] before.take(i as int)[k]).feature_type == code;
                assert(before.take(i + 1)[k] == before.take(i as int)[k]);
            }
            if speaks_of(before.take(i + 1), code) {
                let k = choose|k: int|
                    0 <= k < i + 1 && (#[trigger] before.take(i + 1)[k]).feature_type == code;
                if k < i {
                    assert(before.take(i as int)[k] == before.take(i + 1)[k]);
                }
            }
        }
        i += 1;
    }
    assert(before.take(i as int) =~= before);
    if !found {
        assert(rows@ =~= before) by {
            assert forall|k: int| 0 <= k < before.len() implies rows@[k] == before[k] by {
                assert(before[k].feature_type != code);
            }
        }
        rows.push(new);
    }
    assert(rows@ =~= with_feature(before, set));
}

fn set_features(rows: Vec<TeamFeatureRow>, features: &Vec<AdminTeamFeatureDataInput>) -> (r: Vec<
    TeamFeatureRow,
>)
    ensures
        r@ == with_features(rows@, features@),
{
    let ghost before = rows@;
    let mut rows = rows;
    let mut i: usize = 0;
    while i < features.len()
        invariant
            i <= features@.len(),
            rows@ == with_features(before, features@.take(i as int)),
        decreases features@.len() - i,
    {
        assert(features@.take(i + 1).drop_last() =~= features@.take(i as int));
        assert(features@.take(i + 1).last() == features@[i as int]);
        set_feature(&mut rows, features[i]);
        i += 1;
    }
    assert(features@.take(i as int) =~= features@);
    rows
}

/// What an administrator's update brings about.
#[derive(Debug)]
pub struct AdminTeamUpdate {
    /// The team after the update.
    pub team: StoredTeam,
    /// What the team may use after the update.
    pub features: Vec<TeamFeatureRow>,
    /// Whether the team's content is to be worked out anew.
    pub marks_dirty: bool,
    /// The event, where anything changes of what the team may do.
    pub event: Option<EventLogInput>,
}

fn or_kept(named: &Option<String>, kept: String) -> (r: String)
    ensures
        r@ == patch::named_or(judge::text_in(*named), kept@),
{
    match named {
        Some(text) => text.clone(),
        None => kept,
    }
}

fn access_event(
    game_id: i32,
    team_id: i32,
    actor_id: i32,
    current: TeamAccessRow,
    rows: &Vec<TeamFeatureRow>,
    data: &AdminTeamUpdateData,
) -> (r: Option<EventLogInput>)
    ensures
        tells_changes(r, game_id, team_id, actor_id, access_changes(current, rows@, *data), *data),
{
    let mut changes: Vec<Json> = Vec::new();
    push_mark(&mut changes, data.is_banned, current.is_banned, "banned", "unbanned");
    push_mark(&mut changes, data.is_locked, current.is_locked, "locked", "unlocked");
    push_mark(&mut changes, data.is_beta, current.is_beta, "beta_enabled", "beta_disabled");
    if let Some(features) = &data.features {
        push_features(&mut changes, features, rows);
    }
    assert(json::array_view(changes@) =~= access_changes(current, rows@, *data));
    proof {
        lemma_array_len(changes@);
    }
    if changes.len() == 0 {
        return None;
    }
    let reason = match &data.reason {
        Some(text) => tidy_reason(Some(text.as_str())),
        None => None,
    };
    let shown = match &reason {
        Some(text) => Json::text(text.as_str()),
        None => Json::Null,
    };
    assert(shown@ == json::opt_text_json(currency::reason_left(judge::text_in(data.reason))));
    let fields = Fields::new().put("staff", Json::Bool(true)).put("reason", shown).put(
        "changes",
        Json::Array(changes),
    );
    assert(fields.pairs() =~= seq![
        ("staff"@, J::Bool(true)),
        ("reason"@, json::opt_text_json(currency::reason_left(judge::text_in(data.reason)))),
        ("changes"@, J::Array(access_changes(current, rows@, *data))),
    ]);
    let mut event = EventLogInput::team_activity("team.access_changed", fields.object());
    event.severity = EventSeverity::Warning.into();
    event.game_id = Some(game_id);
    event.team_id = Some(team_id);
    event.user_id = Some(actor_id);
    Some(event)
}

/// An administrator's update of a team, where there is such a team: what it leaves of the team and
/// of what the team may use, and what else it brings about. The features that are named must be such
/// that can be set.
pub fn admin_update(
    game_id: i32,
    team_id: i32,
    actor_id: i32,
    current: Option<StoredTeam>,
    rows: Vec<TeamFeatureRow>,
    data: &AdminTeamUpdateData,
) -> (r: Result<Option<AdminTeamUpdate>, RbInternalError>)
    ensures
        match r {
            Err(e) => data.features matches Some(features) && !settable(features@) && e.text()
                == "Invalid team feature update"@,
            Ok(update) => {
                &&& data.features matches Some(features) ==> settable(features@)
                &&& match (current, update) {
                    (None, None) => true,
                    (Some(current), Some(update)) => {
                        &&& changed_team(update.team, current, *data)
                        &&& update.features@ == features_after(rows@, *data)
                        &&& update.marks_dirty == (update.team.access.is_locked
                            != current.access.is_locked)
                        &&& tells_changes(
                            update.event,
                            game_id,
                            team_id,
                            actor_id,
                            access_changes(current.access, rows@, *data),
                            *data,
                        )
                    },
                    _ => false,
                }
            },
        },
{
    if let Err(e) = check_features(&data.features) {
        return Err(e);
    }
    let current = match current {
        Some(current) => current,
        None => {
            return Ok(None);
        },
    };
    let access = current.access;
    let event = access_event(game_id, team_id, actor_id, access, &rows, data);
    let features = match &data.features {
        Some(features) => set_features(rows, features),
        None => rows,
    };
    let team = StoredTeam {
        name: or_kept(&data.name, current.name),
        pass: or_kept(&data.pass, current.pass),
        bio: or_kept(&data.bio, current.bio),
        access: TeamAccessRow {
            is_banned: or_old(data.is_banned, access.is_banned),
            is_locked: or_old(data.is_locked, access.is_locked),
            is_beta: or_old(data.is_beta, access.is_beta),
        },
    };
    let marks_dirty = team.access.is_locked != access.is_locked;
    Ok(Some(AdminTeamUpdate { team, features, marks_dirty, event }))
}

proof fn lemma_with_feature(
    rows: Seq<TeamFeatureRow>,
    set: AdminTeamFeatureDataInput,
    feature: GameFeature,
)
    ensures
        enabled_in(with_feature(rows, set), feature) == (if feature.code_of()
            == set.feature.code_of() {
            set.enabled
        } else {
            enabled_in(rows, feature)
        }),
    decreases rows.len(),
{
    let code = set.feature.code_of();
    let all = with_feature(rows, set);
    if rows.len() == 0 {
        assert(all.skip(1) =~= Seq::empty());
        assert(all[0].feature_type == code);
        assert(enabled_in(all.skip(1), feature));
    } else {
        let rest = rows.skip(1);
        if rows[0].feature_type == code {
            assert(speaks_of(rows, code));
            assert(all[0] == (TeamFeatureRow { feature_type: code, enabled: set.enabled }));
            if feature.code_of() != code {
                if speaks_of(rest, code) {
                    lemma_with_feature(rest, set, feature);
                    assert(all.skip(1) =~= with_feature(rest, set));
                } else {
                    assert(all.skip(1) =~= rest) by {
                        assert forall|k: int| 0 <= k < rest.len() implies all.skip(1)[k]
                            == rest[k] by {
                            assert(rest[k].feature_type != code);
                        }
                    }
                }
            }
        } else {
            lemma_with_feature(rest, set, feature);
            assert(speaks_of(rows, code) == speaks_of(rest, code)) by {
                if speaks_of(rest, code) {
                    let k = choose|k: int|
                        0 <= k < rest.len() && (#[trigger] rest[k]).feature_type == code;
                    assert(rows[k + 1].feature_type == code);
                }
                if speaks_of(rows, code) {
                    let k = choose|k: int|
                        0 <= k < rows.len() && (#[trigger] rows[k]).feature_type == code;
                    assert(rest[k - 1].feature_type == code);
                }
            }
            assert(all.skip(1) =~= with_feature(rest, set));
            assert(all[0] == rows[0]);
        }
    }
}

/// After an update that names features a team may use each of them just as it was named, and every
/// other feature as before.
pub proof fn named_features_become_what_is_asked(
    rows: Seq<TeamFeatureRow>,
    features: Seq<AdminTeamFeatureDataInput>,
    feature: GameFeature,
)
    requires
        settable(features),
    ensures
        forall|i: int|
            0 <= i < features.len() && (#[trigger] features[i]).feature == feature ==> enabled_in(
                with_features(rows, features),
                feature,
            ) == features[i].enabled,
        (forall|i: int| 0 <= i < features.len() ==> (#[trigger] features[i]).feature.code_of()
            != feature.code_of()) ==> enabled_in(with_features(rows, features), feature)
            == enabled_in(rows, feature),
    decreases features.len(),
{
    if features.len() > 0 {
        let init = features.drop_last();
        let last = features[features.len() - 1];
        assert(settable(init)) by {
            assert forall|i: int| 0 <= i < init.len() implies per_team(
                (#[trigger] init[i]).feature,
            ) by {
                assert(init[i] == features[i]);
            }
            assert forall|i: int, j: int| 0 <= i < j < init.len() implies (
            #[trigger] init[i]).feature != (#[trigger] init[j]).feature by {
                assert(init[i] == features[i] && init[j] == features[j]);
            }
        }
        named_features_become_what_is_asked(rows, init, feature);
        lemma_with_feature(with_features(rows, init), last, feature);
        assert forall|i: int| 0 <= i < features.len() && (#[trigger] features[i]).feature
            == feature implies enabled_in(with_features(rows, features), feature)
            == features[i].enabled by {
            if i < init.len() {
                assert(init[i] == features[i]);
                assert(per_team(features[i].feature) && per_team(last.feature));
                assert(features[i].feature != last.feature);
                assert(feature.code_of() != last.feature.code_of());
            }
        }
        if forall|i: int| 0 <= i < features.len() ==> (#[trigger] features[i]).feature.code_of()
            != feature.code_of() {
            assert forall|i: int| 0 <= i < init.len() implies (#[trigger] init[i]).feature.code_of()
                != feature.code_of() by {
                assert(init[i] == features[i]);
            }
            assert(last.feature.code_of() != feature.code_of());
        }
    }
}

proof fn lemma_array_len(items: Seq<Json>)
    ensures
        json::array_view(items).len() == items.len(),
    decreases items.len(),
{
    if items.len() > 0 {
        lemma_array_len(items.drop_last());
    }
}

/// An update that asks for what a team already has changes nothing of what it may do.
pub proof fn asking_for_what_is_changes_nothing(
    current: TeamAccessRow,
    rows: Seq<TeamFeatureRow>,
    data: AdminTeamUpdateData,
    new: StoredTeam,
    old: StoredTeam,
)
    requires
        old.access == current,
        changed_team(new, old, data),
        data.is_banned matches Some(mark) ==> mark == current.is_banned,
        data.is_locked matches Some(mark) ==> mark == current.is_locked,
        data.is_beta matches Some(mark) ==> mark == current.is_beta,
        data.features matches Some(features) ==> forall|i: int|
            0 <= i < features@.len() ==> enabled_in(rows, (#[trigger] features@[i]).feature)
                == features@[i].enabled,
    ensures
        access_changes(current, rows, data).len() == 0,
        new.access == current,
{
    if let Some(features) = data.features {
        lemma_no_feature_changes(features@, rows);
    }
}

proof fn lemma_no_feature_changes(
    features: Seq<AdminTeamFeatureDataInput>,
    rows: Seq<TeamFeatureRow>,
)
    requires
        forall|i: int|
            0 <= i < features.len() ==> enabled_in(rows, (#[trigger] features[i]).feature)
                == features[i].enabled,
    ensures
        feature_changes(features, rows).len() == 0,
    decreases features.len(),
{
    if features.len() > 0 {
        assert forall|i: int| 0 <= i < features.drop_last().len() implies enabled_in(
            rows,
            (#[trigger] features.drop_last()[i]).feature,
        ) == features.drop_last()[i].enabled by {
            assert(features.drop_last()[i] == features[i]);
        }
        lemma_no_feature_changes(features.drop_last(), rows);
        assert(features[features.len() - 1] == features.last());
    }
}

/// How a change of a team's members by an administrator ends.
#[derive(Debug, Clone, Copy, PartialEq, Eq, Structural)]
pub enum AdminMemberResult {
    Conflict,
    LastMember,
    NotFound,
    Done,
}

/// How an administrator puts a user into a team: both must be there, and the user must be in no
/// team of the game yet.
pub fn admin_add_member(team_exists: bool, user_exists: bool, stored: bool) -> (r:
    AdminMemberResult)
    ensures
        r == (if !team_exists || !user_exists {
            AdminMemberResult::NotFound
        } else if !stored {
            AdminMemberResult::Conflict
        } else {
            AdminMemberResult::Done
        }),
{
    if !team_exists || !user_exists {
        AdminMemberResult::NotFound
    } else if !stored {
        AdminMemberResult::Conflict
    } else {
        AdminMemberResult::Done
    }
}

/// What stands against taking a member out of a team: a team keeps its last member.
pub fn check_remove_member(team_exists: bool, count: i64) -> (r: Option<AdminMemberResult>)
    ensures
        r == (if !team_exists {
            Some(AdminMemberResult::NotFound)
        } else if count <= 1 {
            Some(AdminMemberResult::LastMember)
        } else {
            None
        }),
{
    if !team_exists {
        Some(AdminMemberResult::NotFound)
    } else if count <= 1 {
        Some(AdminMemberResult::LastMember)
    } else {
        None
    }
}

/// How an administrator takes a member out of a team, and whether the eldest member must become
/// captain.
pub fn admin_remove_member(
    team_exists: bool,
    count: i64,
    removed: bool,
    has_captain: bool,
) -> (r: (AdminMemberResult, bool))
    ensures
        r.0 == (if !team_exists {
            AdminMemberResult::NotFound
        } else if count <= 1 {
            AdminMemberResult::LastMember
        } else if !removed {
            AdminMemberResult::NotFound
        } else {
            AdminMemberResult::Done
        }),
        r.1 == (r.0 is Done && !has_captain),
{
    match check_remove_member(team_exists, count) {
        Some(refusal) => (refusal, false),
        None => {
            if removed {
                (AdminMemberResult::Done, !has_captain)
            } else {
                (AdminMemberResult::NotFound, false)
            }
        },
    }
}

/// How an administrator makes a member captain.
pub fn admin_promote_member(is_member: bool) -> (r: AdminMemberResult)
    ensures
        r == (if is_member {
            AdminMemberResult::Done
        } else {
            AdminMemberResult::NotFound
        }),
{
    if is_member {
        AdminMemberResult::Done
    } else {
        AdminMemberResult::NotFound
    }
}

/// The members of a team that an administrator deletes: a team without members is not found.
pub fn admin_delete(members: Vec<i32>) -> (r: Option<Vec<i32>>)
    ensures
        r == (if members@.len() > 0 {
            Some(members)
        } else {
            None
        }),
{
    if members.len() > 0 {
        Some(members)
    } else {
        None
    }
}

/// Who may join a team: it must be there, open for members, not banned, and its password must be
/// given; the first of these that fails is told.
pub proof fn teams_take_who_knows_the_password(team: TeamJoinRow, password: Seq<char>)
    ensures
        join_refusal(None, password) == Some(TeamJoinResult::NotFound),
        join_refusal(Some(team), password) is None <==> team.team_open && !team.is_banned
            && team.pass@ == password,
        join_refusal(Some(team), password) == Some(TeamJoinResult::NotOpen) <==> !team.team_open,
        join_refusal(Some(team), password) == Some(TeamJoinResult::Banned) <==> team.team_open
            && team.is_banned,
        join_refusal(Some(team), password) == Some(TeamJoinResult::WrongPwd) <==> team.team_open
            && !team.is_banned && team.pass@ != password,
{
}

/// The outcomes of joining are told apart by their numbers, and only success has the number zero.
pub proof fn outcomes_of_joining_are_told_apart(a: TeamJoinResult, b: TeamJoinResult)
    ensures
        a.code_of() == b.code_of() ==> a == b,
        a.code_of() == 0 <==> a == TeamJoinResult::Joined,
        a.code_of() <= 0,
{
}

/// A text that is not given is not too short or too long, and one that is given is measured in
/// characters.
pub proof fn given_texts_are_measured(text: String, min: int, max: int)
    ensures
        length_within(None, min, max),
        length_within(Some(text), min, max) <==> min <= text@.len() && text@.len() <= max,
{
}

/// A change names the columns of what it gives, and no others: the name, the password, the words about
/// the team, in this order.
pub proof fn changes_name_their_columns(data: UserUpdateData)
    ensures
        changed_columns(data).contains("name"@) <==> data.name is Some,
        changed_columns(data).contains("pass"@) <==> data.pass is Some,
        changed_columns(data).contains("bio"@) <==> data.bio is Some,
        changed_columns(data).len() == (if data.name is Some {
            1int
        } else {
            0
        }) + (if data.pass is Some {
            1int
        } else {
            0
        }) + (if data.bio is Some {
            1int
        } else {
            0
        }),
{
    reveal_strlit("name");
    reveal_strlit("pass");
    reveal_strlit("bio");
    assert("name"@[0] != "pass"@[0]);
    assert("name"@ != "pass"@ && "name"@ != "bio"@ && "pass"@ != "bio"@);
    let all = changed_columns(data);
    let n = if data.name is Some {
        1int
    } else {
        0
    };
    let p = if data.pass is Some {
        1int
    } else {
        0
    };
    if data.name is Some {
        assert(all[0] == "name"@);
    }
    if data.pass is Some {
        assert(all[n] == "pass"@);
    }
    if data.bio is Some {
        assert(all[n + p] == "bio"@);
    }
}

/// Each column is set to the parameter of its own number, and columns are set apart by commas.
pub proof fn columns_are_set_by_number(columns: Seq<Seq<char>>, column: Seq<char>)
    ensures
        assignments(Seq::empty()).len() == 0,
        assignments(seq![column]) == column + " = $"@ + text::decimal(1),
        columns.len() > 0 ==> assignments(columns.push(column)) == assignments(columns) + ", "@
            + column + " = $"@ + text::decimal(columns.len() as int + 1),
{
    assert(columns.push(column).drop_last() =~= columns);
    assert(Seq::<char>::empty() + column =~= column);
    assert(seq![column].last() == column);
}

/// Only some features are set for single teams: messages, tickets and the leaderboard.
pub proof fn some_features_are_set_for_teams(feature: GameFeature)
    ensures
        per_team(feature) <==> feature == GameFeature::DirectMessage || feature
            == GameFeature::PuzzleTicket || feature == GameFeature::Leaderboard,
        !per_team(GameFeature::TeamFormation),
        !per_team(GameFeature::Currency),
{
}

/// Features can be set together where each can be set for single teams and none is named twice.
pub proof fn settable_features_are_named_once(
    features: Seq<AdminTeamFeatureDataInput>,
    i: int,
    j: int,
)
    ensures
        features.len() == 0 ==> settable(features),
        features.len() == 1 && per_team(features[0].feature) ==> settable(features),
        0 <= i < j < features.len() && features[i].feature == features[j].feature ==> !settable(
            features,
        ),
        0 <= i < features.len() && !per_team(features[i].feature) ==> !settable(features),
{
}

/// A feature of a team is on where nothing is stored of it, and otherwise as its first row says.
pub proof fn features_are_on_unless_stored(
    rows: Seq<TeamFeatureRow>,
    row: TeamFeatureRow,
    feature: GameFeature,
)
    ensures
        enabled_in(Seq::empty(), feature),
        row.feature_type == feature.code_of() ==> enabled_in(seq![row] + rows, feature)
            == row.enabled,
        row.feature_type != feature.code_of() ==> enabled_in(seq![row] + rows, feature)
            == enabled_in(rows, feature),
{
    let all = seq![row] + rows;
    assert(all[0] == row);
    assert(all.skip(1) =~= rows);
}

/// What is told of a change of a mark: nothing where it stays or is not named, and otherwise one word
/// for setting it and another for taking it away.
pub proof fn changed_marks_are_told(current: bool, on: Seq<char>, off: Seq<char>)
    ensures
        mark_change(None, current, on, off).len() == 0,
        mark_change(Some(current), current, on, off).len() == 0,
        mark_change(Some(true), false, on, off) == seq![team_change_json(on)],
        mark_change(Some(false), true, on, off) == seq![team_change_json(off)],
{
}

/// A change of a feature is told exactly where the feature was not yet what it is set to.
pub proof fn changed_features_are_told(
    features: Seq<AdminTeamFeatureDataInput>,
    input: AdminTeamFeatureDataInput,
    rows: Seq<TeamFeatureRow>,
)
    ensures
        feature_changes(Seq::empty(), rows).len() == 0,
        enabled_in(rows, input.feature) == input.enabled ==> feature_changes(
            features.push(input),
            rows,
        ) == feature_changes(features, rows),
        enabled_in(rows, input.feature) != input.enabled ==> feature_changes(
            features.push(input),
            rows,
        ) == feature_changes(features, rows).push(feature_change_json(input)),
{
    assert(features.push(input).drop_last() =~= features);
}

/// How many changes are told: one for each mark that changes and one for each feature that does.
pub proof fn all_changes_are_told(
    current: TeamAccessRow,
    rows: Seq<TeamFeatureRow>,
    data: AdminTeamUpdateData,
)
    ensures
        ({
            let told = access_changes(current, rows, data);
            let banned = data.is_banned is Some && data.is_banned->0 != current.is_banned;
            let locked = data.is_locked is Some && data.is_locked->0 != current.is_locked;
            let beta = data.is_beta is Some && data.is_beta->0 != current.is_beta;
            let set = if data.features is Some {
                feature_changes(data.features->0@, rows).len()
            } else {
                0
            };
            told.len() == set + (if banned {
                1nat
            } else {
                0
            }) + (if locked {
                1nat
            } else {
                0
            }) + (if beta {
                1nat
            } else {
                0
            })
        }),
{
}

/// Changes are told in an event exactly where there are any: one of the team's activities, as a
/// warning, that names the game, the team and who made them.
pub proof fn changes_are_told_in_an_event(
    event: EventLogInput,
    game_id: i32,
    team_id: i32,
    actor_id: i32,
    changes: Seq<J>,
    data: AdminTeamUpdateData,
)
    ensures
        tells_changes(None, game_id, team_id, actor_id, changes, data) <==> changes.len() == 0,
        tells_changes(Some(event), game_id, team_id, actor_id, changes, data) ==> {
            &&& changes.len() > 0
            &&& event.event_type@ == "team.access_changed"@
            &&& event.event_scope == 1
            &&& event.severity == 1
            &&& event.game_id == Some(game_id)
            &&& event.team_id == Some(team_id)
            &&& event.user_id == Some(actor_id)
            &&& event.target_user_id is None && event.puzzle_id is None && event.currency_id is None
            &&& event.data@ is Object
        },
{
}

/// An update of a team sets what it names and leaves the rest.
pub proof fn updates_of_teams_touch_what_they_name(
    new: StoredTeam,
    old_team: StoredTeam,
    data: AdminTeamUpdateData,
)
    requires
        changed_team(new, old_team, data),
    ensures
        data.name is None ==> new.name@ == old_team.name@,
        data.name matches Some(x) ==> new.name@ == x@,
        data.pass is None ==> new.pass@ == old_team.pass@,
        data.pass matches Some(x) ==> new.pass@ == x@,
        data.bio is None ==> new.bio@ == old_team.bio@,
        data.bio matches Some(x) ==> new.bio@ == x@,
        data.is_banned is None ==> new.access.is_banned == old_team.access.is_banned,
        data.is_banned matches Some(x) ==> new.access.is_banned == x,
        data.is_locked is None ==> new.access.is_locked == old_team.access.is_locked,
        data.is_locked matches Some(x) ==> new.access.is_locked == x,
        data.is_beta is None ==> new.access.is_beta == old_team.access.is_beta,
        data.is_beta matches Some(x) ==> new.access.is_beta == x,
{
}

/// Setting a feature touches the rows of that feature alone, and an update that names no features
/// leaves them all.
pub proof fn features_are_set_one_by_one(
    rows: Seq<TeamFeatureRow>,
    set: AdminTeamFeatureDataInput,
    data: AdminTeamUpdateData,
    i: int,
)
    ensures
        data.features is None ==> features_after(rows, data) == rows,
        data.features matches Some(features) ==> features_after(rows, data) == with_features(
            rows,
            features@,
        ),
        with_features(rows, Seq::empty()) == rows,
        0 <= i < rows.len() && rows[i].feature_type != set.feature.code_of() ==> with_feature(
            rows,
            set,
        )[i] == rows[i],
        (exists|k: int|
            0 <= k < rows.len() && (#[trigger] rows[k]).feature_type == set.feature.code_of())
            ==> with_feature(rows, set).len() == rows.len(),
        (forall|k: int|
            0 <= k < rows.len() ==> (#[trigger] rows[k]).feature_type != set.feature.code_of())
            ==> with_feature(rows, set).len() == rows.len() + 1,
{
}

/// A change of a team is shown by what was done.
pub proof fn changes_of_teams_are_shown(action: Seq<char>)
    ensures
        team_change_json(action) is Object,
        team_change_json(action)->Object_0.dom().contains("target"@),
        team_change_json(action)->Object_0["target"@] == J::Text("team"@),
        team_change_json(action)->Object_0.dom().contains("action"@),
        team_change_json(action)->Object_0["action"@] == J::Text(action),
{
    reveal_strlit("target");
    reveal_strlit("action");
    assert("target"@.len() == 6 && "action"@.len() == 6);
    assert("action"@[0] == 'a' && "target"@[0] == 't');
    let pairs = seq![
        ("target"@, J::Text("team"@)),
        ("action"@, J::Text(action)),
    ];
    json::keys_hold_their_values(pairs, 0);
    json::keys_hold_their_values(pairs, 1);
}

/// A change of a feature is shown by the word for the feature and by whether it was given back.
pub proof fn changes_of_features_are_shown(feature: GameFeature)
    ensures
        feature_change_json(AdminTeamFeatureDataInput { feature, enabled: true }) is Object,
        feature_change_json(AdminTeamFeatureDataInput { feature, enabled: true })->Object_0.dom().contains("target"@),
        feature_change_json(AdminTeamFeatureDataInput { feature, enabled: true })->Object_0["target"@] == J::Text("feature"@),
        feature_change_json(AdminTeamFeatureDataInput { feature, enabled: true })->Object_0.dom().contains("feature"@),
        feature_change_json(AdminTeamFeatureDataInput { feature, enabled: true })->Object_0["feature"@] == J::Text(feature.word_of()),
        feature_change_json(AdminTeamFeatureDataInput { feature, enabled: true })->Object_0.dom().contains("action"@),
        feature_change_json(AdminTeamFeatureDataInput { feature, enabled: true })->Object_0["action"@] == J::Text("unbanned"@),
{
    reveal_strlit("target");
    reveal_strlit("feature");
    reveal_strlit("action");
    assert("target"@.len() == 6 && "feature"@.len() == 7 && "action"@.len() == 6);
    assert("action"@[0] == 'a' && "target"@[0] == 't');
    let pairs = seq![
        ("target"@, J::Text("feature"@)),
        ("feature"@, J::Text(feature.word_of())),
        ("action"@, J::Text("unbanned"@)),
    ];
    json::keys_hold_their_values(pairs, 0);
    json::keys_hold_their_values(pairs, 1);
    json::keys_hold_their_values(pairs, 2);
}

/// A feature that was taken from a team is shown as banned.
pub proof fn bans_of_features_are_shown(feature: GameFeature)
    ensures
        feature_change_json(AdminTeamFeatureDataInput { feature, enabled: false }) is Object,
        feature_change_json(AdminTeamFeatureDataInput { feature, enabled: false })->Object_0.dom().contains("target"@),
        feature_change_json(AdminTeamFeatureDataInput { feature, enabled: false })->Object_0["target"@] == J::Text("feature"@),
        feature_change_json(AdminTeamFeatureDataInput { feature, enabled: false })->Object_0.dom().contains("feature"@),
        feature_change_json(AdminTeamFeatureDataInput { feature, enabled: false })->Object_0["feature"@] == J::Text(feature.word_of()),
        feature_change_json(AdminTeamFeatureDataInput { feature, enabled: false })->Object_0.dom().contains("action"@),
        feature_change_json(AdminTeamFeatureDataInput { feature, enabled: false })->Object_0["action"@] == J::Text("banned"@),
{
    reveal_strlit("target");
    reveal_strlit("feature");
    reveal_strlit("action");
    assert("target"@.len() == 6 && "feature"@.len() == 7 && "action"@.len() == 6);
    assert("action"@[0] == 'a' && "target"@[0] == 't');
    let pairs = seq![
        ("target"@, J::Text("feature"@)),
        ("feature"@, J::Text(feature.word_of())),
        ("action"@, J::Text("banned"@)),
    ];
    json::keys_hold_their_values(pairs, 0);
    json::keys_hold_their_values(pairs, 1);
    json::keys_hold_their_values(pairs, 2);
}

/// The statement sets the columns that are named, asks for the captain of the team in the game by the
/// two parameters behind them, and keeps the names of locked teams.
pub proof fn statements_keep_names_of_locked_teams(data: UserUpdateData)
    ensures
        ({
            let columns = changed_columns(data);
            let head = "UPDATE rb_team SET "@ + assignments(columns)
                + " WHERE id = (SELECT team_id FROM rb_team_member tm WHERE user_id = $"@
                + text::decimal(columns.len() as int + 1) + " AND game_id = $"@ + text::decimal(
                columns.len() as int + 2,
            ) + " AND is_captain)"@;
            &&& data.name is Some ==> update_statement(data) == head + " AND NOT is_locked"@
                + " RETURNING id;"@
            &&& data.name is None ==> update_statement(data) == head + " RETURNING id;"@
        }),
        no_data() == J::Object(Map::empty()),
{
    let columns = changed_columns(data);
    let head = "UPDATE rb_team SET "@ + assignments(columns)
        + " WHERE id = (SELECT team_id FROM rb_team_member tm WHERE user_id = $"@ + text::decimal(
        columns.len() as int + 1,
    ) + " AND game_id = $"@ + text::decimal(columns.len() as int + 2) + " AND is_captain)"@;
    assert(head + Seq::<char>::empty() =~= head);
}

} // verus!
