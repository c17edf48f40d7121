//! Games: who may see them, and what may be stored of them.
use vstd::prelude::*;
use vstd::string::*;

use crate::clock::Timestamp;
use crate::db::patch;
use crate::db::patch::or_old;
use crate::json;
use crate::json::{Json, J};
use crate::model::game::RbGameSettings;
use crate::model::user::RbUserRole;
use crate::text;
use crate::text::{chars_of, is_ascii_digit, trim};

verus! {

pub open spec fn is_game_title(title: Seq<char>) -> bool {
    0 < text::trimmed(title).len() <= 60
}

/// Whether a text can be a game's title: 1 to 60 characters, not counting the white space around.
pub fn valid_game_title(title: &str) -> (r: bool)
    ensures
        r == is_game_title(title@),
{
    let title = trim(title);
    let n: usize = title.as_str().unicode_len();
    n > 0 && n <= 60
}

/// Whether a game is open to a role: inactive games are open to administrators only.
pub fn game_accessible_for_role(is_active: bool, role: RbUserRole) -> (r: bool)
    ensures
        r == (is_active || role.administers()),
{
    is_active || role.is_admin()
}

/// Whether a game is open to a user: members of a beta team see it as administrators do.
pub fn game_accessible_for_user(is_active: bool, role: RbUserRole, is_beta: bool) -> (r: bool)
    ensures
        r == (is_active || role.administers() || is_beta),
{
    game_accessible_for_role(is_active, role) || is_beta
}

/// Whether a game exists for a role, given whether it is active, if it is there at all.
pub fn exists_for(is_active: Option<bool>, role: RbUserRole) -> (r: bool)
    ensures
        r == (is_active matches Some(active) && (active || role.administers())),
{
    match is_active {
        Some(active) => game_accessible_for_role(active, role),
        None => false,
    }
}

/// A currency as an administrator sees it.
#[derive(Debug)]
pub struct RbCurrencyAdminData {
    pub id: i32,
    pub name: String,
    pub slug: String,
    pub growth: i64,
    pub init_amount: i64,
    pub init_hidden: bool,
    pub prec: i32,
    pub max_amount: i64,
}

#[derive(Debug)]
pub struct RbAdminPageTitle {
    pub id: i32,
    pub title: String,
}

/// A currency to be made.
#[derive(Debug)]
pub struct RbCurrencyCreateData {
    pub name: String,
    pub slug: String,
    pub growth: i64,
    pub init_amount: i64,
    pub init_hidden: bool,
    pub prec: i32,
    pub max_amount: i64,
}

/// What a currency is to become.
#[derive(Debug)]
pub struct RbCurrencyUpdateData {
    pub name: String,
    pub slug: String,
    pub growth: i64,
    pub init_amount: i64,
    pub init_hidden: bool,
    pub prec: i32,
    pub max_amount: i64,
}

#[derive(Debug)]
pub struct RbGameShowData {
    pub id: i32,
    pub title: String,
    pub cover: Option<String>,
}

pub open spec fn is_slug_char(c: char) -> bool {
    'a' <= c <= 'z' || text::is_digit(c) || c == '_' || c == '-'
}

pub open spec fn is_currency_slug(slug: Seq<char>) -> bool {
    &&& 1 <= slug.len() <= 40
    &&& forall|i: int| 0 <= i < slug.len() ==> is_slug_char(#[trigger] slug[i])
}

/// Whether a text can be a currency's slug: 1 to 40 lowercase letters, digits, underscores and
/// hyphens.
pub fn valid_currency_slug(slug: &str) -> (r: bool)
    ensures
        r == is_currency_slug(slug@),
{
    let chars = chars_of(slug);
    if chars.len() < 1 || chars.len() > 40 {
        return false;
    }
    let mut i: usize = 0;
    while i < chars.len()
        invariant
            i <= chars@.len(),
            chars@ == slug@,
            forall|k: int| 0 <= k < i ==> is_slug_char(#[trigger] slug@[k]),
        decreases chars@.len() - i,
    {
        let c = chars[i];
        assert(slug@[i as int] == c);
        if !(('a' <= c && c <= 'z') || is_ascii_digit(c) || c == '_' || c == '-') {
            return false;
        }
        i += 1;
    }
    true
}

/// Whether a currency can be stored.
pub fn valid_currency_data(
    name: &str,
    slug: &str,
    prec: i32,
    init_amount: i64,
    max_amount: i64,
) -> (r: bool)
    ensures
        r == {
            &&& text::trimmed(name@).len() > 0
            &&& name@.len() <= 40
            &&& is_currency_slug(slug@)
            &&& 0 <= prec <= 6
            &&& 0 <= init_amount <= max_amount
        },
{
    !trim(name).as_str().is_empty() && name.unicode_len() <= 40 && valid_currency_slug(slug) && 0
        <= prec && prec <= 6 && init_amount >= 0 && max_amount >= 0 && init_amount <= max_amount
}

/// A currency as it is stored when it is made: without the white space around its name and slug.
pub fn create_currency(id: i32, data: RbCurrencyCreateData) -> (r: RbCurrencyAdminData)
    ensures
        r.id == id,
        r.name@ == text::trimmed(data.name@),
        r.slug@ == text::trimmed(data.slug@),
        r.growth == data.growth,
        r.init_amount == data.init_amount,
        r.init_hidden == data.init_hidden,
        r.prec == data.prec,
        r.max_amount == data.max_amount,
{
    RbCurrencyAdminData {
        id,
        name: trim(data.name.as_str()),
        slug: trim(data.slug.as_str()),
        growth: data.growth,
        init_amount: data.init_amount,
        init_hidden: data.init_hidden,
        prec: data.prec,
        max_amount: data.max_amount,
    }
}

/// A currency as a change leaves it, and whether the balances of teams are settled first: where its
/// growth changes while balances grow. Nothing where the currency is not there.
pub fn update_currency(
    id: i32,
    current: Option<(i64, i16)>,
    data: RbCurrencyUpdateData,
) -> (r: Option<(RbCurrencyAdminData, bool)>)
    ensures
        match (current, r) {
            (Some((growth, feature_state)), Some((changed, settles))) => {
                &&& settles == (growth != data.growth && feature_state == 1)
                &&& changed.id == id
                &&& changed.name@ == text::trimmed(data.name@)
                &&& changed.slug@ == text::trimmed(data.slug@)
                &&& changed.growth == data.growth
                &&& changed.init_amount == data.init_amount
                &&& changed.init_hidden == data.init_hidden
                &&& changed.prec == data.prec
                &&& changed.max_amount == data.max_amount
            },
            (None, None) => true,
            _ => false,
        },
{
    let (growth, feature_state) = match current {
        Some(current) => current,
        None => {
            return None;
        },
    };
    let changed = RbCurrencyAdminData {
        id,
        name: trim(data.name.as_str()),
        slug: trim(data.slug.as_str()),
        growth: data.growth,
        init_amount: data.init_amount,
        init_hidden: data.init_hidden,
        prec: data.prec,
        max_amount: data.max_amount,
    };
    let settles = settles_growth(growth, changed.growth, feature_state);
    Some((changed, settles))
}

/// Whether balances must be settled before a currency's growth is changed, given the number of the
/// currency feature's state.
pub fn settles_growth(current_growth: i64, new_growth: i64, feature_state: i16) -> (r: bool)
    ensures
        r == (current_growth != new_growth && feature_state == 1),
{
    current_growth != new_growth && feature_state == 1
}

/// A game, as it is stored.
#[derive(Debug)]
pub struct RbGame {
    pub id: i32,
    pub title: String,
    pub cover: Option<String>,
    pub is_listed: bool,
    pub is_active: bool,
    pub settings: Json,
    pub ctime_at: Timestamp,
}

/// A game to be made, with what is to differ from the default settings.
#[derive(Debug)]
pub struct RbGameCreateData {
    pub title: String,
    pub cover: Option<String>,
    pub is_listed: bool,
    pub is_active: bool,
    pub settings: Option<Json>,
}

/// What is to be changed of a game. What is not named stays; a cover that is named as nothing is
/// taken away, and settings are laid over those that the game has.
#[derive(Debug)]
pub struct RbGameUpdateData {
    pub title: Option<String>,
    pub cover: Option<Option<String>>,
    pub is_listed: Option<bool>,
    pub is_active: Option<bool>,
    pub settings: Option<Json>,
}

/// What a game is stored with.
#[derive(Debug)]
pub struct NewGame {
    pub title: String,
    pub cover: Option<String>,
    pub is_listed: bool,
    pub is_active: bool,
    pub settings: Json,
}

/// What a new game is stored with: what was given, and its settings laid over the default ones.
pub fn create(data: RbGameCreateData) -> (r: NewGame)
    requires
        data.settings matches Some(settings) ==> settings.wf(),
    ensures
        r.title == data.title,
        r.cover == data.cover,
        r.is_listed == data.is_listed,
        r.is_active == data.is_active,
        r.settings.wf(),
        r.settings@ == RbGameSettings::storage_form(
            Some(
                json::merged(
                    RbGameSettings::default_json(),
                    match data.settings {
                        Some(settings) => settings@,
                        None => J::Null,
                    },
                ),
            ),
        ),
{
    NewGame {
        title: data.title,
        cover: data.cover,
        is_listed: data.is_listed,
        is_active: data.is_active,
        settings: RbGameSettings::created(data.settings),
    }
}

/// Changes a game.
pub fn update(game: RbGame, data: RbGameUpdateData) -> (r: RbGame)
    requires
        game.settings.wf(),
        data.settings matches Some(settings) ==> settings.wf(),
    ensures
        r.id == game.id,
        r.title == patch::named_or(data.title, game.title),
        r.cover == patch::named_or(data.cover, game.cover),
        r.is_listed == patch::named_or(data.is_listed, game.is_listed),
        r.is_active == patch::named_or(data.is_active, game.is_active),
        r.ctime_at == game.ctime_at,
        r.settings.wf(),
        match data.settings {
            Some(settings) => r.settings@ == RbGameSettings::storage_form(
                Some(json::merged(game.settings@, settings@)),
            ),
            None => r.settings == game.settings,
        },
{
    RbGame {
        id: game.id,
        title: or_old(data.title, game.title),
        cover: or_old(data.cover, game.cover),
        is_listed: or_old(data.is_listed, game.is_listed),
        is_active: or_old(data.is_active, game.is_active),
        settings: match data.settings {
            Some(settings) => RbGameSettings::patched(game.settings, settings),
            None => game.settings,
        },
        ctime_at: game.ctime_at,
    }
}

/// What is known of a user in a game.
#[derive(Debug, Clone, Copy, PartialEq, Eq, Structural)]
pub struct GameUserInfo {
    pub game_id: i32,
    pub team_id: Option<i32>,
}

/// A game and a user's team in it, as they are stored.
#[derive(Debug, Clone, Copy, PartialEq, Eq, Structural)]
pub struct GameUserRow {
    pub is_active: bool,
    pub team_id: Option<i32>,
    pub is_beta: bool,
}

/// What a user is told of a game that they may enter.
pub open spec fn admitted_to(row: Option<GameUserRow>, game_id: i32, role: RbUserRole) -> Option<
    GameUserInfo,
> {
    match row {
        Some(row) if row.is_active || role.administers() || row.is_beta => Some(
            GameUserInfo { game_id, team_id: row.team_id },
        ),
        _ => None,
    }
}

/// What a user gets to know of a game: nothing where the game is not open to the user.
pub fn get_game_user_info(row: Option<GameUserRow>, game_id: i32, role: RbUserRole) -> (r: Option<
    GameUserInfo,
>)
    ensures
        r == admitted_to(row, game_id, role),
{
    match row {
        Some(row) => {
            if game_accessible_for_user(row.is_active, role, row.is_beta) {
                Some(GameUserInfo { game_id, team_id: row.team_id })
            } else {
                None
            }
        },
        None => None,
    }
}

/// The conditions that narrow a list of games, and its order.
pub open spec fn game_filter(only_listed: bool, only_active: bool) -> Seq<char> {
    (if only_listed {
        " AND g.is_listed = true"@
    } else {
        Seq::empty()
    }) + (if only_active {
        " AND g.is_active = true"@
    } else {
        Seq::empty()
    }) + " ORDER BY g.id"@
}

fn list_query(columns: &str, only_listed: bool, only_active: bool) -> (r: String)
    ensures
        r@ == columns@ + game_filter(only_listed, only_active),
{
    let mut query = columns.to_owned();
    if only_listed {
        query.append(" AND g.is_listed = true");
    }
    if only_active {
        query.append(" AND g.is_active = true");
    }
    query.append(" ORDER BY g.id");
    assert(query@ =~= columns@ + game_filter(only_listed, only_active));
    query
}

/// The query that lists games in full.
pub fn list_all(only_listed: bool, only_active: bool) -> (r: String)
    ensures
        r@
            == "SELECT g.id, g.title, g.cover, g.is_listed, g.is_active, g.settings, g.ctime_at FROM rb_game g WHERE 1=1"@
            + game_filter(only_listed, only_active),
{
    list_query(
        "SELECT g.id, g.title, g.cover, g.is_listed, g.is_active, g.settings, g.ctime_at FROM rb_game g WHERE 1=1",
        only_listed,
        only_active,
    )
}

/// The query that lists games as players see them.
pub fn list_show(only_listed: bool, only_active: bool) -> (r: String)
    ensures
        r@ == "SELECT g.id, g.title, g.cover FROM rb_game g WHERE 1=1"@ + game_filter(
            only_listed,
            only_active,
        ),
{
    list_query(
        "SELECT g.id, g.title, g.cover FROM rb_game g WHERE 1=1",
        only_listed,
        only_active,
    )
}

/// A title has between one and sixty characters, not counting the blanks around it.
pub proof fn titles_have_words(title: Seq<char>)
    ensures
        is_game_title(title) <==> !text::is_blank(title) && text::trimmed(title).len() <= 60,
        title.len() == 0 ==> !is_game_title(title),
{
    text::blanks_are_taken_off_both_ends(title);
}

/// A currency is named by one to forty small letters, digits, underscores and hyphens.
pub proof fn currencies_are_named_by_small_letters(slug: Seq<char>, i: int)
    ensures
        is_currency_slug(slug) ==> 1 <= slug.len() && slug.len() <= 40,
        is_currency_slug(slug) && 0 <= i < slug.len() ==> ('a' <= slug[i] && slug[i] <= 'z') || ('0'
            <= slug[i] && slug[i] <= '9') || slug[i] == '_' || slug[i] == '-',
        1 <= slug.len() && slug.len() <= 40 && (forall|k: int|
            0 <= k < slug.len() ==> ('a' <= #[trigger] slug[k] && slug[k] <= 'z') || ('0' <= slug[k]
                && slug[k] <= '9') || slug[k] == '_' || slug[k] == '-') ==> is_currency_slug(slug),
{
    if 0 <= i < slug.len() && is_currency_slug(slug) {
        assert(is_slug_char(slug[i]));
    }
    if 1 <= slug.len() <= 40 && (forall|k: int|
        0 <= k < slug.len() ==> ('a' <= #[trigger] slug[k] && slug[k] <= 'z') || ('0' <= slug[k]
            && slug[k] <= '9') || slug[k] == '_' || slug[k] == '-') {
        assert forall|k: int| 0 <= k < slug.len() implies is_slug_char(#[trigger] slug[k]) by {}
    }
}

/// Games are kept to the listed ones, to the active ones or to both, each by a clause of its own, and
/// come in the order of their numbers.
pub proof fn games_are_kept_to_what_is_asked()
    ensures
        game_filter(false, false) == " ORDER BY g.id"@,
        game_filter(true, false) == " AND g.is_listed = true"@ + game_filter(false, false),
        game_filter(false, true) == " AND g.is_active = true"@ + game_filter(false, false),
        game_filter(true, true) == " AND g.is_listed = true"@ + game_filter(false, true),
{
    assert(game_filter(false, false) =~= " ORDER BY g.id"@);
    assert(game_filter(true, false) =~= " AND g.is_listed = true"@ + game_filter(false, false));
    assert(game_filter(false, true) =~= " AND g.is_active = true"@ + game_filter(false, false));
    assert(game_filter(true, true) =~= " AND g.is_listed = true"@ + game_filter(false, true));
}

/// A game is entered while it is active, by administrators at any time, and by teams that try it out;
/// whoever enters is told the game and their team.
pub proof fn games_are_entered_by_who_may(row: GameUserRow, game_id: i32, role: RbUserRole)
    ensures
        admitted_to(None, game_id, role) is None,
        admitted_to(Some(row), game_id, role) is Some <==> row.is_active || row.is_beta || role
            == RbUserRole::Admin || role == RbUserRole::Root,
        admitted_to(Some(row), game_id, role) matches Some(info) ==> info.game_id == game_id
            && info.team_id == row.team_id,
{
}

} // verus!
