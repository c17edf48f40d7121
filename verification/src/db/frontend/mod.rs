//! Themes: their packages, and where the renderer of a page is cached.
pub mod draft;
pub mod revision;

use vstd::prelude::*;
use vstd::std_specs::convert::FromSpecImpl;
use vstd::string::*;

use crate::clock::Timestamp;
use crate::json::Json;
use crate::text;
use crate::text::{decimal_string, push_decimal};

verus! {

pub const ROUND_PAGE: &'static str = "round-page";

pub const PUZZLE_PAGE: &'static str = "puzzle-page";

/// How long the renderer of a page stays cached.
pub const RENDERER_CACHE_TTL_SECONDS: u64 = 86400;

/// What a theme can replace besides whole pages.
#[derive(Debug, Clone, Copy, PartialEq, Eq, Hash, Structural)]
pub enum FrontendFeature {
    Locale,
    Icons,
    Ui,
}

impl FrontendFeature {
    pub open spec fn code_of(self) -> i16 {
        match self {
            FrontendFeature::Locale => 0,
            FrontendFeature::Icons => 1,
            FrontendFeature::Ui => 2,
        }
    }

    /// The feature that a number stands for.
    pub fn from_code(code: i16) -> (r: Option<Self>)
        ensures
            match r {
                Some(feature) => feature.code_of() == code,
                None => !(0 <= code <= 2),
            },
    {
        if code == 0 {
            Some(FrontendFeature::Locale)
        } else if code == 1 {
            Some(FrontendFeature::Icons)
        } else if code == 2 {
            Some(FrontendFeature::Ui)
        } else {
            None
        }
    }
}

impl From<FrontendFeature> for i16 {
    fn from(value: FrontendFeature) -> (r: i16) {
        match value {
            FrontendFeature::Locale => 0,
            FrontendFeature::Icons => 1,
            FrontendFeature::Ui => 2,
        }
    }
}

impl FromSpecImpl<FrontendFeature> for i16 {
    open spec fn obeys_from_spec() -> bool {
        true
    }

    open spec fn from_spec(value: FrontendFeature) -> i16 {
        value.code_of()
    }
}

/// A message that a page can be told of.
#[derive(Debug, Clone, Copy, PartialEq, Eq, Hash, Structural)]
pub enum ThemeSyncMessage {
    Unknown,
    SystemStatusUpdated,
    GameNewAnnouncement,
    GameReleaseUpdated,
    GameFrontendUpdated,
    TeamInfoUpdated,
    TeamDisbanded,
    TeamSelfKicked,
    TeamSelfPromoted,
    PuzzleSubmitted,
    PuzzleHintUnlocked,
    PuzzleBackendEvent,
    TicketUpdated,
    NotificationUpdated,
}

impl ThemeSyncMessage {
    pub open spec fn code_of(self) -> i16 {
        match self {
            ThemeSyncMessage::Unknown => -1 as i16,
            ThemeSyncMessage::SystemStatusUpdated => 1,
            ThemeSyncMessage::GameNewAnnouncement => 101,
            ThemeSyncMessage::GameReleaseUpdated => 102,
            ThemeSyncMessage::GameFrontendUpdated => 103,
            ThemeSyncMessage::TeamInfoUpdated => 201,
            ThemeSyncMessage::TeamDisbanded => 202,
            ThemeSyncMessage::TeamSelfKicked => 203,
            ThemeSyncMessage::TeamSelfPromoted => 204,
            ThemeSyncMessage::PuzzleSubmitted => 301,
            ThemeSyncMessage::PuzzleHintUnlocked => 302,
            ThemeSyncMessage::PuzzleBackendEvent => 303,
            ThemeSyncMessage::TicketUpdated => 401,
            ThemeSyncMessage::NotificationUpdated => 402,
        }
    }

    /// Whether a number stands for a message.
    pub open spec fn is_code(code: i16) -> bool {
        code == -1 || code == 1 || 101 <= code <= 103 || 201 <= code <= 204 || 301 <= code <= 303
            || 401 <= code <= 402
    }

    /// The number that stands for this message.
    pub fn code(self) -> (r: i16)
        ensures
            r == self.code_of(),
    {
        match self {
            ThemeSyncMessage::Unknown => -1,
            ThemeSyncMessage::SystemStatusUpdated => 1,
            ThemeSyncMessage::GameNewAnnouncement => 101,
            ThemeSyncMessage::GameReleaseUpdated => 102,
            ThemeSyncMessage::GameFrontendUpdated => 103,
            ThemeSyncMessage::TeamInfoUpdated => 201,
            ThemeSyncMessage::TeamDisbanded => 202,
            ThemeSyncMessage::TeamSelfKicked => 203,
            ThemeSyncMessage::TeamSelfPromoted => 204,
            ThemeSyncMessage::PuzzleSubmitted => 301,
            ThemeSyncMessage::PuzzleHintUnlocked => 302,
            ThemeSyncMessage::PuzzleBackendEvent => 303,
            ThemeSyncMessage::TicketUpdated => 401,
            ThemeSyncMessage::NotificationUpdated => 402,
        }
    }

    /// The message that a number stands for.
    pub fn from_code(code: i16) -> (r: Option<Self>)
        ensures
            match r {
                Some(message) => message.code_of() == code,
                None => !Self::is_code(code),
            },
    {
        match code {
            -1 => Some(ThemeSyncMessage::Unknown),
            1 => Some(ThemeSyncMessage::SystemStatusUpdated),
            101 => Some(ThemeSyncMessage::GameNewAnnouncement),
            102 => Some(ThemeSyncMessage::GameReleaseUpdated),
            103 => Some(ThemeSyncMessage::GameFrontendUpdated),
            201 => Some(ThemeSyncMessage::TeamInfoUpdated),
            202 => Some(ThemeSyncMessage::TeamDisbanded),
            203 => Some(ThemeSyncMessage::TeamSelfKicked),
            204 => Some(ThemeSyncMessage::TeamSelfPromoted),
            301 => Some(ThemeSyncMessage::PuzzleSubmitted),
            302 => Some(ThemeSyncMessage::PuzzleHintUnlocked),
            303 => Some(ThemeSyncMessage::PuzzleBackendEvent),
            401 => Some(ThemeSyncMessage::TicketUpdated),
            402 => Some(ThemeSyncMessage::NotificationUpdated),
            _ => None,
        }
    }
}

/// No two features, and no two messages, share a number.
pub proof fn frontend_codes_are_distinct(
    a: FrontendFeature,
    b: FrontendFeature,
    x: ThemeSyncMessage,
    y: ThemeSyncMessage,
)
    ensures
        a.code_of() == b.code_of() ==> a == b,
        x.code_of() == y.code_of() ==> x == y,
        ThemeSyncMessage::is_code(x.code_of()),
{
}

/// The permission for everything.
#[derive(Debug, Clone, Copy, PartialEq, Eq, Structural)]
pub enum ThemeAllPermission {
    All,
}

/// The messages that a theme may be told of.
#[derive(Debug)]
pub enum ThemeSyncPermission {
    All(ThemeAllPermission),
    Messages(Vec<ThemeSyncMessage>),
}

#[derive(Debug)]
pub struct ThemePermissions {
    pub sync: Option<ThemeSyncPermission>,
}

impl Default for ThemePermissions {
    fn default() -> (r: Self)
        ensures
            r.sync is None,
    {
        ThemePermissions { sync: None }
    }
}

/// The description that comes with a theme.
#[derive(Debug)]
pub struct ThemeManifest {
    pub kind: String,
    pub api_version: i32,
    pub package: ThemeManifestPackage,
    pub permissions: ThemePermissions,
    pub features: ThemeFeatures,
}

/// What a theme replaces; a renderer stands under its name, each name once.
#[derive(Debug)]
pub struct ThemeFeatures {
    pub renderers: Vec<(String, ThemeRendererManifest)>,
    pub locale: Option<ThemeLocaleFeature>,
    pub icons: Option<ThemeIconsFeature>,
    pub ui: Option<ThemeUiFeature>,
}

impl Default for ThemeFeatures {
    fn default() -> (r: Self)
        ensures
            r.renderers@.len() == 0,
            r.locale is None,
            r.icons is None,
            r.ui is None,
    {
        ThemeFeatures { renderers: Vec::new(), locale: None, icons: None, ui: None }
    }
}

impl ThemeFeatures {
    pub open spec fn has(self, feature: FrontendFeature) -> bool {
        match feature {
            FrontendFeature::Locale => self.locale is Some,
            FrontendFeature::Icons => self.icons is Some,
            FrontendFeature::Ui => self.ui is Some,
        }
    }

    /// Whether the theme replaces nothing.
    pub fn is_empty(&self) -> (r: bool)
        ensures
            r == (self.renderers@.len() == 0 && forall|f: FrontendFeature| !self.has(f)),
    {
        let empty = self.renderers.len() == 0 && self.locale.is_none() && self.icons.is_none()
            && self.ui.is_none();
        assert(self.has(FrontendFeature::Locale) == (self.locale is Some));
        assert(self.has(FrontendFeature::Icons) == (self.icons is Some));
        assert(self.has(FrontendFeature::Ui) == (self.ui is Some));
        empty
    }

    pub fn contains(&self, feature: FrontendFeature) -> (r: bool)
        ensures
            r == self.has(feature),
    {
        match feature {
            FrontendFeature::Locale => self.locale.is_some(),
            FrontendFeature::Icons => self.icons.is_some(),
            FrontendFeature::Ui => self.ui.is_some(),
        }
    }
}

/// The texts of a theme, by language.
#[derive(Debug)]
pub struct ThemeLocaleFeature {
    pub locales: Vec<(String, ThemeLocaleEntry)>,
}

#[derive(Debug)]
pub enum ThemeLocaleEntry {
    Inline { messages: Json },
    Json { source: String },
    Module { source: String },
}

#[derive(Debug)]
pub struct ThemeIconsFeature {
    pub collections: Vec<Json>,
}

#[derive(Debug)]
pub struct ThemeUiFeature {
    pub icons: Vec<(String, String)>,
    pub source: Option<String>,
}

#[derive(Debug)]
pub struct ThemeManifestPackage {
    pub name: String,
    pub version: String,
}

#[derive(Debug)]
pub struct ThemeRendererManifest {
    pub surface: String,
    pub layout: Option<String>,
    pub entry: String,
    pub styles: Vec<String>,
}

/// A theme that was uploaded for a game.
#[derive(Debug)]
pub struct FrontendPackage {
    pub id: i32,
    pub game_id: i32,
    pub asset_group_id: i32,
    pub name: String,
    pub version: String,
    pub manifest_path: String,
    pub manifest: Json,
    pub sha256: String,
    /// Whether a newer package has taken its place.
    pub delete_pending: bool,
    pub ctime_at: Timestamp,
}

/// A theme to store.
#[derive(Debug)]
pub struct NewPackage<'a> {
    pub game_id: i32,
    pub asset_group_id: i32,
    pub manifest_path: &'a str,
    pub manifest: &'a ThemeManifest,
    pub sha256: &'a str,
}

/// The revision part of the name under which a renderer is cached.
pub open spec fn cache_revision(preview_revision: Option<i64>) -> Seq<char> {
    match preview_revision {
        Some(id) => text::decimal(id as int),
        None => "published"@,
    }
}

pub fn renderer_cache_revision(preview_revision: Option<i64>) -> (r: String)
    ensures
        r@ == cache_revision(preview_revision),
{
    match preview_revision {
        Some(id) => decimal_string(id),
        None => "published".to_owned(),
    }
}

/// What the names of all renderers of a revision of a game start with.
pub open spec fn cache_scope(game_id: i32, preview_revision: Option<i64>) -> Seq<char> {
    "frontend:renderer:v2:game:"@ + (text::decimal(game_id as int) + (":revision:"@ + (cache_revision(
        preview_revision,
    ) + ":"@)))
}

/// An id in a name; no id is written as 0.
pub open spec fn id_or_zero(id: Option<i32>) -> int {
    match id {
        Some(id) => id as int,
        None => 0,
    }
}

/// The name under which the renderer of a page is cached.
pub open spec fn cache_name(
    game_id: i32,
    surface: Seq<char>,
    round_id: Option<i32>,
    puzzle_id: Option<i32>,
    preview_revision: Option<i64>,
) -> Seq<char> {
    cache_scope(game_id, preview_revision) + ("surface:"@ + (surface + (":round:"@ + (text::decimal(
        id_or_zero(round_id),
    ) + (":puzzle:"@ + text::decimal(id_or_zero(puzzle_id)))))))
}

fn push_scope(name: &mut String, game_id: i32, preview_revision: Option<i64>)
    ensures
        final(name)@ == old(name)@ + cache_scope(game_id, preview_revision),
{
    name.append("frontend:renderer:v2:game:");
    push_decimal(name, game_id as i64);
    name.append(":revision:");
    let revision = renderer_cache_revision(preview_revision);
    name.append(&revision);
    name.append(":");
    assert(name@ =~= old(name)@ + cache_scope(game_id, preview_revision));
}

pub fn renderer_cache_key(
    game_id: i32,
    surface: &str,
    round_id: Option<i32>,
    puzzle_id: Option<i32>,
    preview_revision: Option<i64>,
) -> (r: String)
    ensures
        r@ == cache_name(game_id, surface@, round_id, puzzle_id, preview_revision),
{
    let mut r = "".to_owned();
    proof {
        reveal_strlit("");
    }
    push_scope(&mut r, game_id, preview_revision);
    r.append("surface:");
    r.append(surface);
    r.append(":round:");
    let round: i32 = match round_id {
        Some(id) => id,
        None => 0,
    };
    push_decimal(&mut r, round as i64);
    r.append(":puzzle:");
    let puzzle: i32 = match puzzle_id {
        Some(id) => id,
        None => 0,
    };
    push_decimal(&mut r, puzzle as i64);
    assert(r@ =~= cache_name(game_id, surface@, round_id, puzzle_id, preview_revision));
    r
}

/// The pattern of the names of all renderers of a revision of a game.
pub fn renderer_cache_pattern(game_id: i32, preview_revision: Option<i64>) -> (r: String)
    ensures
        r@ == cache_scope(game_id, preview_revision) + "*"@,
{
    let mut r = "".to_owned();
    proof {
        reveal_strlit("");
    }
    push_scope(&mut r, game_id, preview_revision);
    r.append("*");
    assert(r@ =~= cache_scope(game_id, preview_revision) + "*"@);
    r
}

/// Where two texts are equal that each start with a part without a colon, followed by a colon, both
/// parts are equal.
proof fn lemma_cut_at_colon(a: Seq<char>, x: Seq<char>, b: Seq<char>, y: Seq<char>)
    requires
        !a.contains(':'),
        !b.contains(':'),
        x.len() > 0 && x[0] == ':',
        y.len() > 0 && y[0] == ':',
        a + x == b + y,
    ensures
        a == b,
        x == y,
{
    let s = a + x;
    assert(s[a.len() as int] == ':');
    assert((b + y)[b.len() as int] == ':');
    if a.len() < b.len() {
        assert((b + y)[a.len() as int] == b[a.len() as int]);
        assert(b.contains(b[a.len() as int]));
    }
    if b.len() < a.len() {
        assert(s[b.len() as int] == a[b.len() as int]);
        assert(a.contains(a[b.len() as int]));
    }
    assert(s.take(a.len() as int) =~= a);
    assert((b + y).take(a.len() as int) =~= b);
    assert(s.skip(a.len() as int) =~= x);
    assert((b + y).skip(a.len() as int) =~= y);
}

/// A common start can be taken away.
proof fn lemma_same_start(p: Seq<char>, x: Seq<char>, y: Seq<char>)
    requires
        p + x == p + y,
    ensures
        x == y,
{
    assert((p + x).skip(p.len() as int) =~= x);
    assert((p + y).skip(p.len() as int) =~= y);
}

proof fn lemma_no_colon(n: int)
    ensures
        !text::decimal(n).contains(':'),
{
    text::decimal_alphabet(n);
}

proof fn lemma_revision(a: Option<i64>, b: Option<i64>)
    ensures
        !cache_revision(a).contains(':'),
        cache_revision(a) == cache_revision(b) ==> a == b,
{
    reveal_strlit("published");
    match a {
        Some(i) => {
            text::decimal_alphabet(i as int);
            assert(!cache_revision(a).contains(':'));
        },
        None => {
            assert(!cache_revision(a).contains(':'));
        },
    }
    if cache_revision(a) == cache_revision(b) {
        match (a, b) {
            (Some(i), Some(j)) => {
                text::decimal_injective(i as int, j as int);
            },
            (Some(i), None) => {
                text::decimal_alphabet(i as int);
                assert(text::is_digit(text::decimal(i as int)[0]) || text::decimal(i as int)[0] == '-');
                assert("published"@[0] == 'p');
            },
            (None, Some(j)) => {
                text::decimal_alphabet(j as int);
                assert(text::is_digit(text::decimal(j as int)[0]) || text::decimal(j as int)[0] == '-');
                assert("published"@[0] == 'p');
            },
            (None, None) => {},
        }
    }
}

/// The scopes of two revisions, each with something behind it, are equal only where both are the
/// same revision of the same game, with the same behind it.
proof fn lemma_scopes(
    g: i32,
    r: Option<i64>,
    x: Seq<char>,
    h: i32,
    s: Option<i64>,
    y: Seq<char>,
)
    requires
        cache_scope(g, r) + x == cache_scope(h, s) + y,
    ensures
        g == h,
        r == s,
        x == y,
{
    reveal_strlit(":revision:");
    reveal_strlit(":");
    let p = "frontend:renderer:v2:game:"@;
    let rx = cache_revision(r) + (":"@ + x);
    let sy = cache_revision(s) + (":"@ + y);
    assert(cache_scope(g, r) + x =~= p + (text::decimal(g as int) + (":revision:"@ + rx)));
    assert(cache_scope(h, s) + y =~= p + (text::decimal(h as int) + (":revision:"@ + sy)));
    lemma_same_start(p, text::decimal(g as int) + (":revision:"@ + rx), text::decimal(h as int) + (":revision:"@ + sy));
    lemma_no_colon(g as int);
    lemma_no_colon(h as int);
    lemma_cut_at_colon(text::decimal(g as int), ":revision:"@ + rx, text::decimal(h as int), ":revision:"@ + sy);
    text::decimal_injective(g as int, h as int);
    lemma_same_start(":revision:"@, rx, sy);
    lemma_revision(r, s);
    lemma_revision(s, r);
    lemma_cut_at_colon(cache_revision(r), ":"@ + x, cache_revision(s), ":"@ + y);
    lemma_same_start(":"@, x, y);
}

/// The renderers of two pages share a name only where game, revision, surface, round and puzzle are
/// the same, where surfaces hold no colon.
pub proof fn renderers_share_no_names(
    game_a: i32,
    surface_a: Seq<char>,
    round_a: Option<i32>,
    puzzle_a: Option<i32>,
    revision_a: Option<i64>,
    game_b: i32,
    surface_b: Seq<char>,
    round_b: Option<i32>,
    puzzle_b: Option<i32>,
    revision_b: Option<i64>,
)
    requires
        !surface_a.contains(':'),
        !surface_b.contains(':'),
        cache_name(game_a, surface_a, round_a, puzzle_a, revision_a) == cache_name(
            game_b,
            surface_b,
            round_b,
            puzzle_b,
            revision_b,
        ),
    ensures
        game_a == game_b,
        revision_a == revision_b,
        surface_a == surface_b,
        id_or_zero(round_a) == id_or_zero(round_b),
        id_or_zero(puzzle_a) == id_or_zero(puzzle_b),
{
    reveal_strlit(":round:");
    reveal_strlit(":puzzle:");
    let pa = ":puzzle:"@ + text::decimal(id_or_zero(puzzle_a));
    let pb = ":puzzle:"@ + text::decimal(id_or_zero(puzzle_b));
    let ra = ":round:"@ + (text::decimal(id_or_zero(round_a)) + pa);
    let rb = ":round:"@ + (text::decimal(id_or_zero(round_b)) + pb);
    lemma_scopes(
        game_a,
        revision_a,
        "surface:"@ + (surface_a + ra),
        game_b,
        revision_b,
        "surface:"@ + (surface_b + rb),
    );
    lemma_same_start("surface:"@, surface_a + ra, surface_b + rb);
    lemma_cut_at_colon(surface_a, ra, surface_b, rb);
    lemma_same_start(
        ":round:"@,
        text::decimal(id_or_zero(round_a)) + pa,
        text::decimal(id_or_zero(round_b)) + pb,
    );
    lemma_no_colon(id_or_zero(round_a));
    lemma_no_colon(id_or_zero(round_b));
    lemma_cut_at_colon(text::decimal(id_or_zero(round_a)), pa, text::decimal(id_or_zero(round_b)), pb);
    text::decimal_injective(id_or_zero(round_a), id_or_zero(round_b));
    lemma_same_start(":puzzle:"@, text::decimal(id_or_zero(puzzle_a)), text::decimal(id_or_zero(puzzle_b)));
    text::decimal_injective(id_or_zero(puzzle_a), id_or_zero(puzzle_b));
}

/// The names that start as the pattern of a revision of a game does are those of that revision of
/// that game, and no others.
pub proof fn a_pattern_covers_one_revision(
    game_id: i32,
    surface: Seq<char>,
    round_id: Option<i32>,
    puzzle_id: Option<i32>,
    revision: Option<i64>,
    other_game: i32,
    other_revision: Option<i64>,
)
    ensures
        cache_scope(other_game, other_revision).is_prefix_of(
            cache_name(game_id, surface, round_id, puzzle_id, revision),
        ) <==> game_id == other_game && revision == other_revision,
{
    let name = cache_name(game_id, surface, round_id, puzzle_id, revision);
    let scope = cache_scope(other_game, other_revision);
    let rest = "surface:"@ + (surface + (":round:"@ + (text::decimal(id_or_zero(round_id)) + (":puzzle:"@
        + text::decimal(id_or_zero(puzzle_id))))));
    if scope.is_prefix_of(name) {
        let tail = name.skip(scope.len() as int);
        assert(name =~= scope + tail);
        lemma_scopes(game_id, revision, rest, other_game, other_revision, tail);
    }
    if game_id == other_game && revision == other_revision {
        assert(scope =~= name.take(scope.len() as int));
    }
}

/// A theme has a feature exactly where its manifest holds that part.
pub proof fn themes_have_what_they_hold(features: ThemeFeatures)
    ensures
        features.has(FrontendFeature::Locale) <==> features.locale is Some,
        features.has(FrontendFeature::Icons) <==> features.icons is Some,
        features.has(FrontendFeature::Ui) <==> features.ui is Some,
{
}

/// A number stands for a message exactly where some message has it.
pub proof fn messages_have_their_numbers(code: i16)
    ensures
        ThemeSyncMessage::is_code(code) <==> exists|m: ThemeSyncMessage| #[trigger]
            m.code_of() == code,
{
    assert(ThemeSyncMessage::Unknown.code_of() == -1);
    assert(ThemeSyncMessage::SystemStatusUpdated.code_of() == 1);
    assert(ThemeSyncMessage::GameNewAnnouncement.code_of() == 101);
    assert(ThemeSyncMessage::GameReleaseUpdated.code_of() == 102);
    assert(ThemeSyncMessage::GameFrontendUpdated.code_of() == 103);
    assert(ThemeSyncMessage::TeamInfoUpdated.code_of() == 201);
    assert(ThemeSyncMessage::TeamDisbanded.code_of() == 202);
    assert(ThemeSyncMessage::TeamSelfKicked.code_of() == 203);
    assert(ThemeSyncMessage::TeamSelfPromoted.code_of() == 204);
    assert(ThemeSyncMessage::PuzzleSubmitted.code_of() == 301);
    assert(ThemeSyncMessage::PuzzleHintUnlocked.code_of() == 302);
    assert(ThemeSyncMessage::PuzzleBackendEvent.code_of() == 303);
    assert(ThemeSyncMessage::TicketUpdated.code_of() == 401);
    assert(ThemeSyncMessage::NotificationUpdated.code_of() == 402);
}

} // verus!
