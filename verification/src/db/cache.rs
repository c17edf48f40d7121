//! What is cached in the key-value store, and how it is dropped.
use vstd::prelude::*;
use vstd::string::*;

use crate::text;
use crate::text::push_decimal;

verus! {

/// How many keys a scan is asked for at a time.
pub const SCAN_COUNT: u64 = 100;

/// Where the hints of a team for a puzzle are cached.
pub open spec fn hints_name(puzzle_id: i32, team_id: i32) -> Seq<char> {
    "cache:puzzle-hints:v1:puzzle:"@ + text::decimal(puzzle_id as int) + ":team:"@ + text::decimal(
        team_id as int,
    )
}

pub fn team_hints_key(puzzle_id: i32, team_id: i32) -> (r: String)
    ensures
        r@ == hints_name(puzzle_id, team_id),
{
    let mut r = "cache:puzzle-hints:v1:puzzle:".to_owned();
    push_decimal(&mut r, puzzle_id as i64);
    r.append(":team:");
    push_decimal(&mut r, team_id as i64);
    r
}

/// No two teams, and no two puzzles, share cached hints.
pub proof fn cached_hints_are_not_shared(puzzle_a: i32, team_a: i32, puzzle_b: i32, team_b: i32)
    requires
        hints_name(puzzle_a, team_a) == hints_name(puzzle_b, team_b),
    ensures
        puzzle_a == puzzle_b,
        team_a == team_b,
{
    reveal_strlit(":team:");
    let p = "cache:puzzle-hints:v1:puzzle:"@;
    let n = p.len() as int;
    let a = text::decimal(puzzle_a as int);
    let b = text::decimal(puzzle_b as int);
    let x = hints_name(puzzle_a, team_a);
    let y = hints_name(puzzle_b, team_b);
    text::decimal_alphabet(puzzle_a as int);
    text::decimal_alphabet(puzzle_b as int);
    assert(x[n + a.len()] == ':');
    assert(y[n + b.len()] == ':');
    if a.len() < b.len() {
        assert(y[n + a.len()] == b[a.len() as int]);
    }
    if b.len() < a.len() {
        assert(x[n + b.len()] == a[b.len() as int]);
    }
    assert(x.subrange(n, n + a.len()) =~= a);
    assert(y.subrange(n, n + a.len()) =~= b);
    text::decimal_injective(puzzle_a as int, puzzle_b as int);
    assert(x.skip(n + a.len() + 6) =~= text::decimal(team_a as int));
    assert(y.skip(n + a.len() + 6) =~= text::decimal(team_b as int));
    text::decimal_injective(team_a as int, team_b as int);
}

/// What is done after a part of a scan: whether what it found is unlinked, and the cursor to go on
/// with, if the scan is not over.
#[derive(Debug, Clone, Copy, PartialEq, Eq, Structural)]
pub struct ScanStep {
    pub unlink: bool,
    pub next: Option<u64>,
}

/// A scan is over where the store hands back the cursor 0.
pub fn del_pattern(cursor: u64, keys: &Vec<String>) -> (r: ScanStep)
    ensures
        r.unlink == (keys@.len() > 0),
        r.next == (if cursor == 0 {
            None
        } else {
            Some(cursor)
        }),
{
    let next = if cursor == 0 {
        None
    } else {
        Some(cursor)
    };
    ScanStep { unlink: keys.len() > 0, next }
}

} // verus!
