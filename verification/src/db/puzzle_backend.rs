//! The programs behind puzzles, and what they store.
use regex::Regex;
use vstd::prelude::*;
use vstd::string::*;

use crate::text;
use crate::clock::Timestamp;
use crate::error::{fault, RbInternalError};
use crate::game::judge;
use crate::json::{Json, J};
use crate::json;
use crate::text::{chars_of, comes_before, same};

verus! {

/// What stored data belongs to.
#[derive(Debug, Clone, Copy, PartialEq, Eq, Structural)]
pub enum BackendScope {
    Global,
    Team { team_id: i32 },
    Puzzle { puzzle_id: i32 },
    TeamPuzzle { team_id: i32, puzzle_id: i32 },
}

impl BackendScope {
    /// The columns that a scope is stored in.
    pub open spec fn columns(self) -> (i16, Option<i32>, Option<i32>) {
        match self {
            BackendScope::Global => (0, None, None),
            BackendScope::Team { team_id } => (1, Some(team_id), None),
            BackendScope::Puzzle { puzzle_id } => (2, None, Some(puzzle_id)),
            BackendScope::TeamPuzzle { team_id, puzzle_id } => (3, Some(team_id), Some(puzzle_id)),
        }
    }

    /// The scope that columns stand for; a column that is missing counts as zero.
    pub open spec fn of_columns(scope_type: i16, team_id: Option<i32>, puzzle_id: Option<i32>) -> Self {
        let team = match team_id {
            Some(id) => id,
            None => 0,
        };
        let puzzle = match puzzle_id {
            Some(id) => id,
            None => 0,
        };
        if scope_type == 1 {
            BackendScope::Team { team_id: team }
        } else if scope_type == 2 {
            BackendScope::Puzzle { puzzle_id: puzzle }
        } else if scope_type == 3 {
            BackendScope::TeamPuzzle { team_id: team, puzzle_id: puzzle }
        } else {
            BackendScope::Global
        }
    }

    /// The columns that a scope is stored in.
    pub fn parts(&self) -> (r: (i16, Option<i32>, Option<i32>))
        ensures
            r == self.columns(),
    {
        match *self {
            BackendScope::Global => (0, None, None),
            BackendScope::Team { team_id } => (1, Some(team_id), None),
            BackendScope::Puzzle { puzzle_id } => (2, None, Some(puzzle_id)),
            BackendScope::TeamPuzzle { team_id, puzzle_id } => (3, Some(team_id), Some(puzzle_id)),
        }
    }

    /// A scope that was stored is read as it was, so different scopes never share their data.
    pub proof fn scopes_read_back(self)
        ensures
            Self::of_columns(self.columns().0, self.columns().1, self.columns().2) == self,
    {
    }
}

impl BackendScope {
    /// Whether a scope belongs to a game, given whether its team and its puzzle do: a scope without
    /// either belongs to every game.
    pub open spec fn is_in_game(self, team_in_game: bool, puzzle_in_game: bool) -> bool {
        &&& self.columns().1 is Some ==> team_in_game
        &&& self.columns().2 is Some ==> puzzle_in_game
    }
}

/// Whether a scope belongs to a game, given whether the team and the puzzle that it names do.
pub fn ensure_scope_in_game(scope: BackendScope, team_in_game: bool, puzzle_in_game: bool) -> (r:
    bool)
    ensures
        r == scope.is_in_game(team_in_game, puzzle_in_game),
{
    match scope {
        BackendScope::Global => true,
        BackendScope::Team { .. } => team_in_game,
        BackendScope::Puzzle { .. } => puzzle_in_game,
        BackendScope::TeamPuzzle { .. } => team_in_game && puzzle_in_game,
    }
}

/// Checks that a scope belongs to the game that asks for it.
pub fn require_scope_in_game(in_game: bool) -> (r: Result<(), RbInternalError>)
    ensures
        match r {
            Ok(_) => in_game,
            Err(e) => !in_game && e.text() == "backend scope does not belong to current game"@,
        },
{
    if in_game {
        Ok(())
    } else {
        Err(fault("backend scope does not belong to current game"))
    }
}

/// A puzzle's program.
#[derive(Debug)]
pub struct PuzzleBackend {
    pub puzzle_id: i32,
    pub enabled: bool,
    pub source: String,
    pub functions: Json,
    pub ctime_at: Timestamp,
    pub utime_at: Timestamp,
}

/// A puzzle's program, as it is written.
#[derive(Debug)]
pub struct PuzzleBackendInput {
    pub enabled: Option<bool>,
    pub source: String,
    pub functions: Vec<String>,
}

/// The names of functions as they are stored.
pub open spec fn names_json(functions: Seq<String>) -> J {
    J::Array(judge::texts_in(functions).map_values(|s: Seq<char>| J::Text(s)))
}

/// The names of functions as they are stored.
pub fn functions_value(functions: &Vec<String>) -> (r: Json)
    ensures
        r@ == names_json(functions@),
{
    let ghost all = judge::texts_in(functions@).map_values(|s: Seq<char>| J::Text(s));
    let mut items: Vec<Json> = Vec::new();
    let mut i: usize = 0;
    assert(json::array_view(items@) =~= all.take(0));
    while i < functions.len()
        invariant
            i <= functions@.len(),
            all == judge::texts_in(functions@).map_values(|s: Seq<char>| J::Text(s)),
            json::array_view(items@) == all.take(i as int),
        decreases functions@.len() - i,
    {
        let ghost before = items@;
        items.push(Json::text(functions[i].as_str()));
        proof {
            assert(items@.drop_last() =~= before);
            assert(json::array_view(items@) == json::array_view(before).push(items@.last()@));
            assert(all.take(i + 1) =~= all.take(i as int).push(all[i as int]));
        }
        i += 1;
    }
    assert(all.take(i as int) =~= all);
    Json::Array(items)
}

/// The program of a puzzle after it was written anew, over the one that may be there. It is enabled
/// only where that is said.
pub fn upsert_backend(
    stored: Option<PuzzleBackend>,
    puzzle_id: i32,
    data: PuzzleBackendInput,
    now: Timestamp,
) -> (r: PuzzleBackend)
    ensures
        r.puzzle_id == puzzle_id,
        r.enabled == (data.enabled == Some(true)),
        r.source == data.source,
        r.functions@ == names_json(data.functions@),
        r.ctime_at == (match stored {
            Some(stored) => stored.ctime_at,
            None => now,
        }),
        r.utime_at == now,
{
    PuzzleBackend {
        puzzle_id,
        enabled: match data.enabled {
            Some(enabled) => enabled,
            None => false,
        },
        functions: functions_value(&data.functions),
        source: data.source,
        ctime_at: match stored {
            Some(stored) => stored.ctime_at,
            None => now,
        },
        utime_at: now,
    }
}

/// The program of a puzzle after its source was changed: nothing else of it changes. A program that
/// comes to be this way is not enabled, and offers no function.
pub fn update_backend_source(
    stored: Option<PuzzleBackend>,
    puzzle_id: i32,
    source: &str,
    now: Timestamp,
) -> (r: PuzzleBackend)
    ensures
        r.source@ == source@,
        r.utime_at == now,
        match stored {
            Some(stored) => r == (PuzzleBackend { source: r.source, utime_at: now, ..stored }),
            None => r.puzzle_id == puzzle_id && !r.enabled && r.functions@ == names_json(
                Seq::empty(),
            ) && r.ctime_at == now,
        },
{
    match stored {
        Some(stored) => PuzzleBackend {
            puzzle_id: stored.puzzle_id,
            enabled: stored.enabled,
            source: source.to_owned(),
            functions: stored.functions,
            ctime_at: stored.ctime_at,
            utime_at: now,
        },
        None => {
            let functions: Vec<String> = Vec::new();
            PuzzleBackend {
                puzzle_id,
                enabled: false,
                source: source.to_owned(),
                functions: functions_value(&functions),
                ctime_at: now,
                utime_at: now,
            }
        },
    }
}

/// The program of a puzzle, where there is one, after the functions that it offers were changed:
/// nothing else of it changes.
pub fn update_backend_functions(
    stored: Option<PuzzleBackend>,
    functions: &Vec<String>,
    now: Timestamp,
) -> (r: Option<PuzzleBackend>)
    ensures
        match (stored, r) {
            (Some(stored), Some(r)) => {
                &&& r.functions@ == names_json(functions@)
                &&& r == (PuzzleBackend { functions: r.functions, utime_at: now, ..stored })
            },
            (None, None) => true,
            _ => false,
        },
{
    match stored {
        Some(stored) => Some(
            PuzzleBackend {
                puzzle_id: stored.puzzle_id,
                enabled: stored.enabled,
                source: stored.source,
                functions: functions_value(functions),
                ctime_at: stored.ctime_at,
                utime_at: now,
            },
        ),
        None => None,
    }
}

pub open spec fn is_name_start(c: char) -> bool {
    'a' <= c <= 'z' || 'A' <= c <= 'Z' || c == '_'
}

pub open spec fn is_name_part(c: char) -> bool {
    is_name_start(c) || '0' <= c <= '9'
}

/// Whether a text can name a function: at most 64 letters, digits and underscores, of which the
/// first is no digit.
pub open spec fn is_function_name(name: Seq<char>) -> bool {
    &&& 1 <= name.len() <= 64
    &&& is_name_start(name[0])
    &&& forall|i: int| 0 <= i < name.len() ==> is_name_part(#[trigger] name[i])
}

/// Whether a text can name a function.
pub fn is_valid_backend_function_name(name: &str) -> (r: bool)
    ensures
        r == is_function_name(name@),
{
    let chars = chars_of(name);
    if chars.len() == 0 || chars.len() > 64 {
        return false;
    }
    let first = chars[0];
    if !(('a' <= first && first <= 'z') || ('A' <= first && first <= 'Z') || first == '_') {
        return false;
    }
    let mut i: usize = 0;
    while i < chars.len()
        invariant
            i <= chars@.len(),
            chars@ == name@,
            forall|k: int| 0 <= k < i ==> is_name_part(#[trigger] name@[k]),
        decreases chars@.len() - i,
    {
        let c = chars[i];
        if !(('a' <= c && c <= 'z') || ('A' <= c && c <= 'Z') || c == '_' || ('0' <= c && c
            <= '9')) {
            assert(!is_name_part(name@[i as int]));
            return false;
        }
        i += 1;
    }
    true
}

/// The names in a list of values: its texts, each once, where it first stands.
pub open spec fn names_in(items: Seq<J>) -> Seq<Seq<char>>
    decreases items.len(),
{
    if items.len() == 0 {
        Seq::empty()
    } else {
        let rest = names_in(items.drop_last());
        match items.last() {
            J::Text(name) if !rest.contains(name) => rest.push(name),
            _ => rest,
        }
    }
}

/// The names that a value lists: those of an array, and none of any other value.
pub open spec fn listed_names(value: J) -> Seq<Seq<char>> {
    match value {
        J::Array(items) => names_in(items),
        _ => Seq::empty(),
    }
}

/// Whether a list holds a text.
fn holds_text(texts: &Vec<String>, text: &str) -> (r: bool)
    ensures
        r == judge::texts_in(texts@).contains(text@),
{
    let mut i: usize = 0;
    while i < texts.len()
        invariant
            i <= texts@.len(),
            forall|k: int| 0 <= k < i ==> (#[trigger] texts@[k])@ != text@,
        decreases texts@.len() - i,
    {
        if same(texts[i].as_str(), text) {
            assert(judge::texts_in(texts@)[i as int] == text@);
            return true;
        }
        i += 1;
    }
    assert forall|k: int| 0 <= k < judge::texts_in(texts@).len() implies judge::texts_in(texts@)[k] != text@ by {
        assert(texts@[k]@ != text@);
    }
    false
}

/// The names that a value lists.
pub fn normalize_functions(value: &Json) -> (r: Vec<String>)
    ensures
        judge::texts_in(r@) == listed_names(value@),
{
    let mut names: Vec<String> = Vec::new();
    if let Json::Array(items) = value {
        let ghost view = json::array_view(items@);
        proof {
            lemma_array_items(items@);
            assert(value@ == J::Array(view));
        }
        let mut i: usize = 0;
        assert(judge::texts_in(names@) =~= names_in(view.take(0)));
        while i < items.len()
            invariant
                i <= items@.len(),
                view == json::array_view(items@),
                view.len() == items@.len(),
                forall|k: int| 0 <= k < items@.len() ==> #[trigger] view[k] == json::json_view(items@[k]),
                judge::texts_in(names@) == names_in(view.take(i as int)),
            decreases items@.len() - i,
        {
            proof {
                assert(view.take(i + 1).drop_last() =~= view.take(i as int));
                assert(view.take(i + 1).last() == view[i as int]);
            }
            if let Json::Text(name) = &items[i] {
                if !holds_text(&names, name.as_str()) {
                    let ghost before = judge::texts_in(names@);
                    names.push(name.clone());
                    assert(judge::texts_in(names@) =~= before.push(name@));
                }
            }
            i += 1;
        }
        assert(view.take(i as int) =~= view);
    } else {
        assert(judge::texts_in(names@) =~= Seq::empty());
    }
    names
}

proof fn lemma_array_items(items: Seq<Json>)
    ensures
        json::array_view(items).len() == items.len(),
        forall|k: int| 0 <= k < items.len() ==> #[trigger] json::array_view(items)[k] == json::json_view(items[k]),
    decreases items.len(),
{
    if items.len() > 0 {
        lemma_array_items(items.drop_last());
        assert forall|k: int| 0 <= k < items.len() implies #[trigger] json::array_view(items)[k]
            == json::json_view(items[k]) by {
            if k < items.len() - 1 {
                assert(json::array_view(items)[k] == json::array_view(items.drop_last())[k]);
                assert(items.drop_last()[k] == items[k]);
            }
        }
    }
}

/// How a function is exported.
pub const EXPORT_FUNCTION_PATTERN: &'static str =
    r"(?m)^export\s+(?:async\s+)?function\s+([A-Za-z_][A-Za-z0-9_]*)\s*\(";

/// How a constant that is a function is exported.
pub const EXPORT_CONST_FUNCTION_PATTERN: &'static str =
    r"(?m)^export\s+const\s+([A-Za-z_][A-Za-z0-9_]*)\s*=\s*(?:async\s*)?(?:function|\()";

/// What the first group of a pattern captures in each of its matches in a text, in their order,
/// with nothing for a match that the group has no part in; and nothing at all for a pattern that is
/// none.
pub uninterp spec fn first_groups(pattern: Seq<char>, text: Seq<char>) -> Option<
    Seq<Option<Seq<char>>>,
>;

/// What optional texts say.
pub open spec fn optional_texts(v: Seq<Option<String>>) -> Seq<Option<Seq<char>>> {
    v.map_values(|t: Option<String>| crate::game::judge::text_in(t))
}

/// `regex::Regex::captures_iter` of the pattern that `regex::Regex::new` reads: the first group of
/// each match, or nothing where the pattern cannot be read.
#[verifier::external_body]
fn capture_first_groups(pattern: &str, text: &str) -> (r: Option<Vec<Option<String>>>)
    ensures
        match first_groups(pattern@, text@) {
            Some(groups) => r matches Some(v) && optional_texts(v@) == groups,
            None => r is None,
        },
{
    let regex = Regex::new(pattern).ok()?;
    Some(regex.captures_iter(text).map(|c| c.get(1).map(|m| m.as_str().to_owned())).collect())
}

/// The captures of a pattern; a pattern that is none captures nothing.
pub open spec fn captures(pattern: Seq<char>, text: Seq<char>) -> Seq<Option<Seq<char>>> {
    match first_groups(pattern, text) {
        Some(groups) => groups,
        None => Seq::empty(),
    }
}

fn captures_of(pattern: &str, text: &str) -> (r: Vec<Option<String>>)
    ensures
        optional_texts(r@) == captures(pattern@, text@),
{
    match capture_first_groups(pattern, text) {
        Some(groups) => groups,
        None => {
            let none: Vec<Option<String>> = Vec::new();
            assert(optional_texts(none@) =~= Seq::empty());
            none
        },
    }
}

/// Whether texts stand in the order of a dictionary, none of them twice.
pub open spec fn in_dictionary_order(texts: Seq<Seq<char>>) -> bool {
    forall|i: int, j: int|
        0 <= i < j < texts.len() ==> text::precedes(#[trigger] texts[i], #[trigger] texts[j])
}

/// Whether a name was captured, and is one.
pub open spec fn is_captured_name(captured: Seq<Option<Seq<char>>>, name: Seq<char>) -> bool {
    captured.contains(Some(name)) && is_function_name(name)
}

fn insert_name(names: &mut Vec<String>, name: &str)
    requires
        in_dictionary_order(judge::texts_in(old(names)@)),
    ensures
        in_dictionary_order(judge::texts_in(final(names)@)),
        forall|s: Seq<char>| #[trigger]
            judge::texts_in(final(names)@).contains(s) <==> (judge::texts_in(old(names)@).contains(s) || s
                == name@),
{
    let mut i: usize = 0;
    while i < names.len() && comes_before(names[i].as_str(), name)
        invariant
            i <= names@.len(),
            names@ == old(names)@,
            forall|k: int| 0 <= k < i ==> text::precedes((#[trigger] names@[k])@, name@),
        decreases names@.len() - i,
    {
        i += 1;
    }
    let ghost before = judge::texts_in(names@);
    if i < names.len() && same(names[i].as_str(), name) {
        assert(before[i as int] == name@);
        return;
    }
    names.insert(i, name.to_owned());
    proof {
        let after = judge::texts_in(names@);
        assert(after =~= before.insert(i as int, name@));
        if i < before.len() {
            text::texts_are_strictly_ordered(before[i as int], name@);
        }
        assert forall|a: int, b: int| 0 <= a < b < after.len() implies text::precedes(
            #[trigger] after[a],
            #[trigger] after[b],
        ) by {
            if b < i {
                assert(after[a] == before[a] && after[b] == before[b]);
            } else if a > i {
                assert(after[a] == before[a - 1] && after[b] == before[b - 1]);
            } else if b == i {
                assert(after[a] == before[a]);
                assert(text::precedes(old(names)@[a]@, name@));
            } else if a == i {
                assert(after[b] == before[b - 1]);
                if b - 1 > i {
                    assert(text::precedes(before[i as int], before[b - 1]));
                    text::text_order_is_transitive(name@, before[i as int], before[b - 1]);
                }
            } else {
                assert(after[a] == before[a] && after[b] == before[b - 1]);
            }
        }
        assert forall|s: Seq<char>| #[trigger]
            after.contains(s) <==> (before.contains(s) || s == name@) by {
            if before.contains(s) {
                let k = choose|k: int| 0 <= k < before.len() && before[k] == s;
                if k < i {
                    assert(after[k] == s);
                } else {
                    assert(after[k + 1] == s);
                }
            }
            if s == name@ {
                assert(after[i as int] == s);
            }
            if after.contains(s) {
                let k = choose|k: int| 0 <= k < after.len() && after[k] == s;
                if k < i {
                    assert(before[k] == s);
                } else if k > i {
                    assert(before[k - 1] == s);
                }
            }
        }
    }
}

fn insert_captured(names: &mut Vec<String>, captured: &Vec<Option<String>>)
    requires
        in_dictionary_order(judge::texts_in(old(names)@)),
    ensures
        in_dictionary_order(judge::texts_in(final(names)@)),
        forall|s: Seq<char>| #[trigger]
            judge::texts_in(final(names)@).contains(s) <==> (judge::texts_in(old(names)@).contains(s)
                || is_captured_name(optional_texts(captured@), s)),
{
    let ghost all = optional_texts(captured@);
    let ghost before = judge::texts_in(names@);
    let mut i: usize = 0;
    while i < captured.len()
        invariant
            i <= captured@.len(),
            all == optional_texts(captured@),
            before == judge::texts_in(old(names)@),
            in_dictionary_order(judge::texts_in(names@)),
            forall|s: Seq<char>| #[trigger]
                judge::texts_in(names@).contains(s) <==> (before.contains(s) || is_captured_name(
                    all.take(i as int),
                    s,
                )),
        decreases captured@.len() - i,
    {
        let ghost held = judge::texts_in(names@);
        if let Some(name) = &captured[i] {
            if is_valid_backend_function_name(name.as_str()) {
                insert_name(names, name.as_str());
            }
        }
        proof {
            let one = all.take(i as int);
            let two = all.take(i + 1);
            assert(two =~= one.push(all[i as int]));
            assert forall|s: Seq<char>| #[trigger]
                judge::texts_in(names@).contains(s) <==> (before.contains(s) || is_captured_name(
                    two,
                    s,
                )) by {
                assert(held.contains(s) <==> (before.contains(s) || is_captured_name(one, s)));
                if one.contains(Some(s)) {
                    let k = choose|k: int| 0 <= k < one.len() && one[k] == Some(s);
                    assert(two[k] == Some(s));
                }
                if two.contains(Some(s)) {
                    let k = choose|k: int| 0 <= k < two.len() && two[k] == Some(s);
                    if k < i {
                        assert(one[k] == Some(s));
                    }
                }
                if all[i as int] == Some(s) {
                    assert(two[i as int] == Some(s));
                }
            }
        }
        i += 1;
    }
    assert(all.take(i as int) =~= all);
}

/// The functions that a program exports, given what the two patterns captured: the names that are
/// names, each once, in the order of a dictionary.
pub fn exported_names(functions: &Vec<Option<String>>, constants: &Vec<Option<String>>) -> (r: Vec<
    String,
>)
    ensures
        in_dictionary_order(judge::texts_in(r@)),
        forall|s: Seq<char>| #[trigger]
            judge::texts_in(r@).contains(s) <==> (is_captured_name(optional_texts(functions@), s)
                || is_captured_name(optional_texts(constants@), s)),
{
    let mut names: Vec<String> = Vec::new();
    insert_captured(&mut names, functions);
    insert_captured(&mut names, constants);
    names
}

/// Whether a program exports a function.
pub open spec fn exports(source: Seq<char>, name: Seq<char>) -> bool {
    is_captured_name(captures(EXPORT_FUNCTION_PATTERN@, source), name) || is_captured_name(
        captures(EXPORT_CONST_FUNCTION_PATTERN@, source),
        name,
    )
}

/// The functions that a program exports, in the order of a dictionary.
pub fn parse_export_functions(source: &str) -> (r: Vec<String>)
    ensures
        in_dictionary_order(judge::texts_in(r@)),
        forall|s: Seq<char>| #[trigger] judge::texts_in(r@).contains(s) <==> exports(source@, s),
{
    let functions = captures_of(EXPORT_FUNCTION_PATTERN, source);
    let constants = captures_of(EXPORT_CONST_FUNCTION_PATTERN, source);
    exported_names(&functions, &constants)
}

impl PuzzleBackend {
    /// The functions that may be called.
    pub fn functions_list(&self) -> (r: Vec<String>)
        ensures
            judge::texts_in(r@) == listed_names(self.functions@),
    {
        normalize_functions(&self.functions)
    }

    /// Whether a function may be called.
    pub fn function_enabled(&self, name: &str) -> (r: bool)
        ensures
            r == listed_names(self.functions@).contains(name@),
    {
        holds_text(&self.functions_list(), name)
    }

    /// Whether the program exports a function.
    pub fn export_enabled(&self, name: &str) -> (r: bool)
        ensures
            r == exports(self.source@, name@),
    {
        holds_text(&parse_export_functions(self.source.as_str()), name)
    }

    /// Whether a function may be called and is exported.
    pub fn callable_function(&self, name: &str) -> (r: bool)
        ensures
            r == (listed_names(self.functions@).contains(name@) && exports(self.source@, name@)),
    {
        self.function_enabled(name) && self.export_enabled(name)
    }
}

/// A stored value, as it is listed.
#[derive(Debug)]
pub struct PuzzleBackendKvEntry {
    pub scope_type: i16,
    pub team_id: Option<i32>,
    pub puzzle_id: Option<i32>,
    pub key: String,
    pub value: Json,
    pub version: i64,
    pub expires_at: Option<Timestamp>,
    pub utime_at: Timestamp,
}

/// A stored value.
#[derive(Debug)]
pub struct PuzzleBackendKvValue {
    pub value: Json,
    pub version: i64,
    pub expires_at: Option<Timestamp>,
}

/// What an attempt to change a stored value has come to.
#[derive(Debug)]
pub struct PuzzleBackendKvMutation {
    pub applied: bool,
    pub entry: Option<PuzzleBackendKvValue>,
    pub server_time: Timestamp,
}

/// What becomes of the expiry of a stored value.
#[derive(Debug, Clone, Copy, PartialEq, Eq, Structural)]
pub enum PuzzleBackendKvExpiry {
    Preserve,
    Permanent,
    Ttl(i64),
}

/// Whether a stored value can be read at a time: it has no expiry, or one that lies ahead.
pub open spec fn is_live(entry: Option<PuzzleBackendKvValue>, now: Timestamp) -> bool {
    entry matches Some(e) && (e.expires_at matches Some(at) ==> at > now)
}

fn live(entry: &Option<PuzzleBackendKvValue>, now: Timestamp) -> (r: bool)
    ensures
        r == is_live(*entry, now),
{
    match entry {
        Some(e) => match e.expires_at {
            Some(at) => at > now,
            None => true,
        },
        None => false,
    }
}

/// The stored value that is read at a time.
pub fn get_kv_entry(entry: Option<PuzzleBackendKvValue>, now: Timestamp) -> (r: Option<
    PuzzleBackendKvValue,
>)
    ensures
        r == (if is_live(entry, now) {
            entry
        } else {
            None
        }),
{
    if live(&entry, now) {
        entry
    } else {
        None
    }
}

/// The version of a value that is written over another, or where there was none.
pub open spec fn next_version(entry: Option<PuzzleBackendKvValue>) -> int {
    match entry {
        Some(e) => e.version + 1,
        None => 1,
    }
}

fn version_after(entry: &Option<PuzzleBackendKvValue>) -> (r: i64)
    requires
        next_version(*entry) <= i64::MAX,
    ensures
        r == next_version(*entry),
{
    match entry {
        Some(e) => e.version + 1,
        None => 1,
    }
}

/// Writes a value whatever was there: it does not expire.
pub fn set_kv(entry: Option<PuzzleBackendKvValue>, value: Json) -> (r: PuzzleBackendKvValue)
    requires
        next_version(entry) <= i64::MAX,
    ensures
        r == (PuzzleBackendKvValue {
            value,
            version: next_version(entry) as i64,
            expires_at: None,
        }),
{
    let version = version_after(&entry);
    PuzzleBackendKvValue { value, version, expires_at: None }
}

/// The time some milliseconds ahead.
pub open spec fn ahead(now: Timestamp, ttl_ms: i64) -> int {
    now + ttl_ms * 1000
}

/// The expiry after some milliseconds, where there is to be one.
pub open spec fn expiry_after(now: Timestamp, ttl_ms: Option<i64>) -> Option<Timestamp> {
    match ttl_ms {
        Some(ttl) => Some(ahead(now, ttl) as Timestamp),
        None => None,
    }
}

pub open spec fn expiry_fits(now: Timestamp, ttl_ms: Option<i64>) -> bool {
    ttl_ms matches Some(ttl) ==> i64::MIN <= ahead(now, ttl) <= i64::MAX
}

fn expiry_at(now: Timestamp, ttl_ms: Option<i64>) -> (r: Option<Timestamp>)
    requires
        expiry_fits(now, ttl_ms),
    ensures
        r == expiry_after(now, ttl_ms),
{
    match ttl_ms {
        Some(ttl) => {
            let at: i128 = (now as i128) + (ttl as i128) * 1000;
            Some(at as i64)
        },
        None => None,
    }
}

/// Whether a key can be claimed: no value can be read under it.
pub fn is_claimable(entry: &Option<PuzzleBackendKvValue>, now: Timestamp) -> (r: bool)
    ensures
        r == !is_live(*entry, now),
{
    !live(entry, now)
}

/// Claims a key: the value is written only where none can be read.
pub fn set_kv_if_absent(
    entry: Option<PuzzleBackendKvValue>,
    value: Json,
    ttl_ms: Option<i64>,
    now: Timestamp,
) -> (r: PuzzleBackendKvMutation)
    requires
        !is_live(entry, now) ==> next_version(entry) <= i64::MAX,
        expiry_fits(now, ttl_ms),
    ensures
        r.applied == !is_live(entry, now),
        r.server_time == now,
        r.entry == (if is_live(entry, now) {
            entry
        } else {
            Some(
                PuzzleBackendKvValue {
                    value,
                    version: next_version(entry) as i64,
                    expires_at: expiry_after(now, ttl_ms),
                },
            )
        }),
{
    if live(&entry, now) {
        return PuzzleBackendKvMutation { applied: false, entry, server_time: now };
    }
    let version = version_after(&entry);
    let expires_at = expiry_at(now, ttl_ms);
    PuzzleBackendKvMutation {
        applied: true,
        entry: Some(PuzzleBackendKvValue { value, version, expires_at }),
        server_time: now,
    }
}

/// Whether a value may be written over a given version: it can be read, and has that version.
pub open spec fn may_replace(
    entry: Option<PuzzleBackendKvValue>,
    expected_version: i64,
    now: Timestamp,
) -> bool {
    is_live(entry, now) && entry->0.version == expected_version
}

pub open spec fn new_expiry(
    expiry: PuzzleBackendKvExpiry,
    old: Option<Timestamp>,
    now: Timestamp,
) -> Option<Timestamp> {
    match expiry {
        PuzzleBackendKvExpiry::Preserve => old,
        PuzzleBackendKvExpiry::Permanent => None,
        PuzzleBackendKvExpiry::Ttl(ttl) => expiry_after(now, Some(ttl)),
    }
}

/// Whether a value may be written over a given version.
pub fn is_replaceable(
    entry: &Option<PuzzleBackendKvValue>,
    expected_version: i64,
    now: Timestamp,
) -> (r: bool)
    ensures
        r == may_replace(*entry, expected_version, now),
{
    match entry {
        Some(e) => live(entry, now) && e.version == expected_version,
        None => false,
    }
}

/// Writes a value over a given version: a value that has changed, or cannot be read any more, stays.
pub fn compare_and_set_kv(
    entry: Option<PuzzleBackendKvValue>,
    expected_version: i64,
    value: Json,
    expiry: PuzzleBackendKvExpiry,
    now: Timestamp,
) -> (r: PuzzleBackendKvMutation)
    requires
        may_replace(entry, expected_version, now) ==> next_version(entry) <= i64::MAX && (expiry
            matches PuzzleBackendKvExpiry::Ttl(ttl) ==> expiry_fits(now, Some(ttl))),
    ensures
        r.applied == may_replace(entry, expected_version, now),
        r.server_time == now,
        r.entry == (if may_replace(entry, expected_version, now) {
            Some(
                PuzzleBackendKvValue {
                    value,
                    version: (expected_version + 1) as i64,
                    expires_at: new_expiry(expiry, entry->0.expires_at, now),
                },
            )
        } else if is_live(entry, now) {
            entry
        } else {
            None
        }),
{
    if !live(&entry, now) {
        return PuzzleBackendKvMutation { applied: false, entry: None, server_time: now };
    }
    match entry {
        None => PuzzleBackendKvMutation { applied: false, entry: None, server_time: now },
        Some(e) => {
            if e.version != expected_version {
                return PuzzleBackendKvMutation {
                    applied: false,
                    entry: Some(e),
                    server_time: now,
                };
            }
            let expires_at = match expiry {
                PuzzleBackendKvExpiry::Preserve => e.expires_at,
                PuzzleBackendKvExpiry::Permanent => None,
                PuzzleBackendKvExpiry::Ttl(ttl) => expiry_at(now, Some(ttl)),
            };
            PuzzleBackendKvMutation {
                applied: true,
                entry: Some(
                    PuzzleBackendKvValue { value, version: expected_version + 1, expires_at },
                ),
                server_time: now,
            }
        },
    }
}

/// Of two claims of a key at one time at most one is granted, as long as what was claimed first does
/// not expire at once.
pub proof fn a_claimed_key_is_taken(
    entry: Option<PuzzleBackendKvValue>,
    claimed: PuzzleBackendKvValue,
    ttl_ms: Option<i64>,
    now: Timestamp,
)
    requires
        !is_live(entry, now),
        claimed.expires_at == expiry_after(now, ttl_ms),
        expiry_fits(now, ttl_ms),
        ttl_ms matches Some(ttl) ==> ttl > 0,
    ensures
        is_live(Some(claimed), now),
{
}

/// A version that was written over cannot be written over again.
pub proof fn stale_versions_are_refused(
    entry: Option<PuzzleBackendKvValue>,
    replaced: PuzzleBackendKvValue,
    expected_version: i64,
    now: Timestamp,
    later: Timestamp,
)
    requires
        may_replace(entry, expected_version, now),
        replaced.version == expected_version + 1,
    ensures
        !may_replace(Some(replaced), expected_version, later),
{
}

/// A user who has stored a document.
#[derive(Debug)]
pub struct PuzzleStoreDocUser {
    pub id: i32,
    pub nickname: String,
}

/// A stored document.
#[derive(Debug)]
pub struct PuzzleStoreDoc {
    pub id: i64,
    pub scope: BackendScope,
    pub collection: String,
    pub created_by: Option<PuzzleStoreDocUser>,
    pub value: Json,
    pub ctime_at: Timestamp,
    pub utime_at: Timestamp,
}

/// A document, as it is stored.
#[derive(Debug)]
pub struct StoreDocRow {
    pub id: i64,
    pub scope_type: i16,
    pub team_id: Option<i32>,
    pub puzzle_id: Option<i32>,
    pub collection: String,
    pub created_by: Option<i32>,
    pub created_by_nickname: Option<String>,
    pub value: Json,
    pub ctime_at: Timestamp,
    pub utime_at: Timestamp,
}

/// Whether a document is what a row holds.
pub open spec fn shows_doc(shown: PuzzleStoreDoc, row: StoreDocRow) -> bool {
    &&& shown.id == row.id
    &&& shown.scope == BackendScope::of_columns(row.scope_type, row.team_id, row.puzzle_id)
    &&& shown.collection == row.collection
    &&& shown.created_by == (match (row.created_by, row.created_by_nickname) {
        (Some(id), Some(nickname)) => Some(PuzzleStoreDocUser { id, nickname }),
        _ => None,
    })
    &&& shown.value == row.value
    &&& shown.ctime_at == row.ctime_at
    &&& shown.utime_at == row.utime_at
}

/// A document, as a row holds it.
pub fn store_doc_from_row(row: StoreDocRow) -> (r: PuzzleStoreDoc)
    ensures
        shows_doc(r, row),
{
    let team_id: i32 = match row.team_id {
        Some(id) => id,
        None => 0,
    };
    let puzzle_id: i32 = match row.puzzle_id {
        Some(id) => id,
        None => 0,
    };
    let scope = if row.scope_type == 1 {
        BackendScope::Team { team_id }
    } else if row.scope_type == 2 {
        BackendScope::Puzzle { puzzle_id }
    } else if row.scope_type == 3 {
        BackendScope::TeamPuzzle { team_id, puzzle_id }
    } else {
        BackendScope::Global
    };
    let created_by = match (row.created_by, row.created_by_nickname) {
        (Some(id), Some(nickname)) => Some(PuzzleStoreDocUser { id, nickname }),
        _ => None,
    };
    PuzzleStoreDoc {
        id: row.id,
        scope,
        collection: row.collection,
        created_by,
        value: row.value,
        ctime_at: row.ctime_at,
        utime_at: row.utime_at,
    }
}

/// The pattern that keys with a prefix match.
pub fn list_kv(prefix: Option<&str>) -> (r: Option<String>)
    ensures
        match prefix {
            Some(prefix) => r matches Some(pattern) && pattern@ == prefix@ + "%"@,
            None => r is None,
        },
{
    match prefix {
        Some(prefix) => {
            let mut pattern = prefix.to_owned();
            pattern.append("%");
            Some(pattern)
        },
        None => None,
    }
}

/// What was cleared of a puzzle's stored data.
#[derive(Debug)]
pub struct ClearPuzzleTeamBackendStateResult {
    pub rows: usize,
    pub team_ids: Vec<i32>,
}

/// What was cleared of a puzzle's stored data, given the team of each row.
pub fn clear_puzzle_team_state(team_ids: Vec<i32>) -> (r: ClearPuzzleTeamBackendStateResult)
    ensures
        r.rows == team_ids@.len(),
        r.team_ids == team_ids,
{
    ClearPuzzleTeamBackendStateResult { rows: team_ids.len(), team_ids }
}

/// Scopes come back from the columns that they are stored in, and unlike scopes have unlike columns.
pub proof fn scopes_come_back(a: BackendScope, b: BackendScope)
    ensures
        BackendScope::of_columns(a.columns().0, a.columns().1, a.columns().2) == a,
        a.columns() == b.columns() ==> a == b,
        a.columns().1 is Some <==> a is Team || a is TeamPuzzle,
        a.columns().2 is Some <==> a is Puzzle || a is TeamPuzzle,
{
}

/// A scope lies in a game exactly where the team and the puzzle that it names do.
pub proof fn scopes_lie_in_games(
    scope: BackendScope,
    team_in_game: bool,
    puzzle_in_game: bool,
)
    ensures
        BackendScope::Global.is_in_game(team_in_game, puzzle_in_game),
        scope is Team ==> (scope.is_in_game(team_in_game, puzzle_in_game) <==> team_in_game),
        scope is Puzzle ==> (scope.is_in_game(team_in_game, puzzle_in_game) <==> puzzle_in_game),
        scope is TeamPuzzle ==> (scope.is_in_game(team_in_game, puzzle_in_game) <==> team_in_game
            && puzzle_in_game),
{
}

/// A function is named by one to 64 letters, digits and underscores, the first of them no digit.
pub proof fn functions_are_named_by_letters(name: Seq<char>, i: int)
    ensures
        is_function_name(name) ==> 1 <= name.len() && name.len() <= 64 && !('0' <= name[0] && name[0]
            <= '9'),
        is_function_name(name) && 0 <= i < name.len() ==> ('a' <= name[i] && name[i] <= 'z') || ('A'
            <= name[i] && name[i] <= 'Z') || ('0' <= name[i] && name[i] <= '9') || name[i] == '_',
        1 <= name.len() && name.len() <= 64 && !('0' <= name[0] && name[0] <= '9') && (forall|k: int|
            0 <= k < name.len() ==> ('a' <= #[trigger] name[k] && name[k] <= 'z') || ('A' <= name[k]
                && name[k] <= 'Z') || ('0' <= name[k] && name[k] <= '9') || name[k] == '_')
            ==> is_function_name(name),
{
    if 0 <= i < name.len() && is_function_name(name) {
        assert(is_name_part(name[i]));
    }
    if 1 <= name.len() && (forall|k: int|
        0 <= k < name.len() ==> ('a' <= #[trigger] name[k] && name[k] <= 'z') || ('A' <= name[k]
            && name[k] <= 'Z') || ('0' <= name[k] && name[k] <= '9') || name[k] == '_') {
        let c = name[0];
        assert forall|k: int| 0 <= k < name.len() implies is_name_part(#[trigger] name[k]) by {}
    }
}

/// The names that a value lists are its texts, each once, in the order in which they come first; a
/// value that is no list names none.
pub proof fn listed_names_are_texts(items: Seq<J>, item: J, value: J)
    ensures
        names_in(Seq::empty()).len() == 0,
        !(item is Text) ==> names_in(items.push(item)) == names_in(items),
        item matches J::Text(name) ==> if names_in(items).contains(name) {
            names_in(items.push(item)) == names_in(items)
        } else {
            names_in(items.push(item)) == names_in(items).push(name)
        },
        listed_names(J::Array(items)) == names_in(items),
        !(value is Array) ==> listed_names(value).len() == 0,
{
    assert(items.push(item).drop_last() =~= items);
}

/// What a list of names is stored as lists those names.
pub proof fn stored_names_are_texts(functions: Seq<String>, i: int)
    requires
        0 <= i < functions.len(),
    ensures
        names_json(functions) is Array,
        names_json(functions)->Array_0.len() == functions.len(),
        names_json(functions)->Array_0[i] == J::Text(functions[i]@),
{
}

/// A source exports a name exactly where one of the two patterns captures it and it is the name of a
/// function; where a pattern captures nothing it exports nothing by it.
pub proof fn exported_names_are_captured(
    captured: Seq<Option<Seq<char>>>,
    source: Seq<char>,
    name: Seq<char>,
    pattern: Seq<char>,
)
    ensures
        is_captured_name(captured, name) <==> is_function_name(name) && exists|i: int|
            0 <= i < captured.len() && captured[i] == Some(name),
        first_groups(pattern, source) is None ==> captures(pattern, source).len() == 0,
        first_groups(pattern, source) matches Some(groups) ==> captures(pattern, source) == groups,
        !is_function_name(name) ==> !exports(source, name),
        exports(source, name) <==> is_captured_name(captures(EXPORT_FUNCTION_PATTERN@, source), name)
            || is_captured_name(captures(EXPORT_CONST_FUNCTION_PATTERN@, source), name),
{
}

/// Names in dictionary order are named once.
pub proof fn ordered_names_are_named_once(texts: Seq<Seq<char>>, i: int, j: int)
    requires
        in_dictionary_order(texts),
        0 <= i < j < texts.len(),
    ensures
        texts[i] != texts[j],
        text::precedes(texts[i], texts[j]),
        !text::precedes(texts[j], texts[i]),
{
    text::texts_are_strictly_ordered(texts[i], texts[j]);
}

/// An entry lives until its time has come, and forever where it has none; versions count from one and
/// rise by one.
pub proof fn entries_live_until_they_expire(entry: PuzzleBackendKvValue, now: Timestamp)
    ensures
        !is_live(None, now),
        is_live(Some(entry), now) <==> entry.expires_at is None || entry.expires_at->0 > now,
        next_version(None) == 1,
        next_version(Some(entry)) == entry.version + 1,
{
}

/// An entry is replaced exactly where it lives and has the version that is expected.
pub proof fn entries_are_replaced_by_version(
    entry: PuzzleBackendKvValue,
    expected_version: i64,
    now: Timestamp,
)
    ensures
        !may_replace(None, expected_version, now),
        may_replace(Some(entry), expected_version, now) <==> entry.version == expected_version && (
        entry.expires_at is None || entry.expires_at->0 > now),
{
}

/// An entry expires as many milliseconds from now as it is given, never where it is given none, and
/// when it did where that is to be kept.
pub proof fn entries_expire_when_they_are_told(
    old_expiry: Option<Timestamp>,
    now: Timestamp,
    ttl: i64,
)
    ensures
        new_expiry(PuzzleBackendKvExpiry::Preserve, old_expiry, now) == old_expiry,
        new_expiry(PuzzleBackendKvExpiry::Permanent, old_expiry, now) is None,
        i64::MIN <= now + ttl * 1000 <= i64::MAX ==> new_expiry(
            PuzzleBackendKvExpiry::Ttl(ttl),
            old_expiry,
            now,
        ) == Some((now + ttl * 1000) as i64),
        expiry_after(now, None) is None,
        i64::MIN <= now + ttl * 1000 <= i64::MAX ==> expiry_after(now, Some(ttl)) == Some(
            (now + ttl * 1000) as i64,
        ),
        expiry_fits(now, None),
        expiry_fits(now, Some(ttl)) <==> i64::MIN <= now + ttl * 1000 <= i64::MAX,
{
}

/// A document is shown as it is stored, with whoever made it where both number and name are stored.
pub proof fn documents_are_shown_as_stored(shown: PuzzleStoreDoc, row: StoreDocRow)
    requires
        shows_doc(shown, row),
    ensures
        shown.id == row.id,
        shown.collection@ == row.collection@,
        shown.value == row.value,
        shown.ctime_at == row.ctime_at,
        shown.utime_at == row.utime_at,
        shown.created_by is Some <==> row.created_by is Some && row.created_by_nickname is Some,
        shown.created_by matches Some(user) ==> row.created_by == Some(user.id)
            && row.created_by_nickname == Some(user.nickname),
        row.scope_type == 0 ==> shown.scope == BackendScope::Global,
        row.scope_type == 1 && row.team_id is Some ==> shown.scope == (BackendScope::Team {
            team_id: row.team_id->0,
        }),
        row.scope_type == 2 && row.puzzle_id is Some ==> shown.scope == (BackendScope::Puzzle {
            puzzle_id: row.puzzle_id->0,
        }),
        row.scope_type == 3 && row.team_id is Some && row.puzzle_id is Some ==> shown.scope == (
        BackendScope::TeamPuzzle { team_id: row.team_id->0, puzzle_id: row.puzzle_id->0 }),
{
}

} // verus!
