//! A team's progress, as the conditions of a game are read against it.
use std::collections::HashMap;

use vstd::hash_map::StringHashMap;
use vstd::prelude::*;

use crate::expr::types;
use crate::expr::types::{Progress, PuzzleId, PuzzleStates, RoundId};
use crate::text::same;

verus! {

broadcast use vstd::std_specs::hash::group_hash_axioms;

/// A round of a game, as it is stored.
#[derive(Debug)]
pub struct RoundRow {
    pub id: i32,
    pub slug: Option<String>,
}

/// A puzzle of a game, as it is stored, with the puzzle that its round is opened by.
#[derive(Debug)]
pub struct PuzzleRow {
    pub id: i32,
    pub slug: Option<String>,
    pub round_id: i32,
    pub round_puzzle_id: Option<i32>,
    pub unlock_cond: Option<String>,
}

/// How the rows of a game are read: whether negative ids stand for 0 or are left out, and whether
/// the puzzle that opens a round counts among its puzzles.
#[derive(Debug, Clone, Copy, PartialEq, Eq, Structural)]
pub struct Reading {
    pub negative_is_zero: bool,
    pub counts_opener: bool,
}

/// The number under which a row is known to conditions.
pub open spec fn number_of(id: i32, reading: Reading) -> Option<u32> {
    if id >= 0 {
        Some(id as u32)
    } else if reading.negative_is_zero {
        Some(0)
    } else {
        None
    }
}

fn number(id: i32, reading: Reading) -> (r: Option<u32>)
    ensures
        r == number_of(id, reading),
{
    if id >= 0 {
        Some(id as u32)
    } else if reading.negative_is_zero {
        Some(0)
    } else {
        None
    }
}

/// The rounds of a game by their slugs.
pub open spec fn round_slugs_of(rows: Seq<RoundRow>, reading: Reading) -> Map<Seq<char>, RoundId>
    decreases rows.len(),
{
    if rows.len() == 0 {
        Map::empty()
    } else {
        let rest = round_slugs_of(rows.drop_last(), reading);
        match (rows.last().slug, number_of(rows.last().id, reading)) {
            (Some(slug), Some(n)) => rest.insert(slug@, n),
            _ => rest,
        }
    }
}

/// The puzzles of a game by their slugs.
pub open spec fn puzzle_slugs_of(rows: Seq<PuzzleRow>, reading: Reading) -> Map<
    Seq<char>,
    PuzzleId,
>
    decreases rows.len(),
{
    if rows.len() == 0 {
        Map::empty()
    } else {
        let rest = puzzle_slugs_of(rows.drop_last(), reading);
        match (rows.last().slug, number_of(rows.last().id, reading)) {
            (Some(slug), Some(n)) => rest.insert(slug@, n),
            _ => rest,
        }
    }
}

/// The puzzles of a game by their rounds, in the order of the rows.
pub open spec fn round_puzzles_of(rows: Seq<PuzzleRow>, reading: Reading) -> Map<
    RoundId,
    Seq<PuzzleId>,
>
    decreases rows.len(),
{
    if rows.len() == 0 {
        Map::empty()
    } else {
        let rest = round_puzzles_of(rows.drop_last(), reading);
        let row = rows.last();
        match (number_of(row.id, reading), number_of(row.round_id, reading)) {
            (Some(n), Some(round)) => if reading.counts_opener || row.round_puzzle_id != Some(
                row.id,
            ) {
                rest.insert(
                    round,
                    (match types::lookup(rest, round) {
                        Some(ids) => ids,
                        None => Seq::empty(),
                    }).push(n),
                )
            } else {
                rest
            },
            _ => rest,
        }
    }
}

/// The names and rounds of a game's puzzles.
pub struct GateIndex {
    pub puzzle_slugs: StringHashMap<u32>,
    pub round_slugs: StringHashMap<u32>,
    pub round_puzzles: HashMap<u32, Vec<u32>>,
}

/// The lists that a map of vectors holds.
pub open spec fn lists_of(m: Map<u32, Vec<u32>>) -> Map<u32, Seq<u32>> {
    Map::new(|k: u32| m.dom().contains(k), |k: u32| m[k]@)
}

impl GateIndex {
    /// Whether the index is that of some rows.
    pub open spec fn indexes(
        self,
        rounds: Seq<RoundRow>,
        puzzles: Seq<PuzzleRow>,
        reading: Reading,
    ) -> bool {
        &&& self.round_slugs@ == round_slugs_of(rounds, reading)
        &&& self.puzzle_slugs@ == puzzle_slugs_of(puzzles, reading)
        &&& lists_of(self.round_puzzles@) == round_puzzles_of(puzzles, reading)
    }

    /// Indexes the rows of a game.
    pub fn build(rounds: &Vec<RoundRow>, puzzles: &Vec<PuzzleRow>, reading: Reading) -> (r: Self)
        ensures
            r.indexes(rounds@, puzzles@, reading),
    {
        let mut round_slugs: StringHashMap<u32> = StringHashMap::new();
        let mut i: usize = 0;
        while i < rounds.len()
            invariant
                i <= rounds@.len(),
                round_slugs@ == round_slugs_of(rounds@.take(i as int), reading),
            decreases rounds@.len() - i,
        {
            proof {
                assert(rounds@.take(i + 1).drop_last() == rounds@.take(i as int));
                assert(rounds@.take(i + 1).last() == rounds@[i as int]);
            }
            if let Some(slug) = &rounds[i].slug {
                if let Some(n) = number(rounds[i].id, reading) {
                    round_slugs.insert(slug.clone(), n);
                }
            }
            i += 1;
        }
        assert(rounds@.take(i as int) == rounds@);
        let mut puzzle_slugs: StringHashMap<u32> = StringHashMap::new();
        let mut round_puzzles: HashMap<u32, Vec<u32>> = HashMap::new();
        assert(lists_of(round_puzzles@) =~= Map::<u32, Seq<u32>>::empty());
        let mut j: usize = 0;
        while j < puzzles.len()
            invariant
                j <= puzzles@.len(),
                puzzle_slugs@ == puzzle_slugs_of(puzzles@.take(j as int), reading),
                lists_of(round_puzzles@) == round_puzzles_of(puzzles@.take(j as int), reading),
            decreases puzzles@.len() - j,
        {
            let row = &puzzles[j];
            let ghost before = round_puzzles@;
            proof {
                assert(puzzles@.take(j + 1).drop_last() == puzzles@.take(j as int));
                assert(puzzles@.take(j + 1).last() == *row);
            }
            if let Some(n) = number(row.id, reading) {
                if let Some(slug) = &row.slug {
                    puzzle_slugs.insert(slug.clone(), n);
                }
                let opens = match row.round_puzzle_id {
                    Some(opener) => opener == row.id,
                    None => false,
                };
                if reading.counts_opener || !opens {
                    if let Some(round) = number(row.round_id, reading) {
                        let mut ids = match round_puzzles.remove(&round) {
                            Some(ids) => ids,
                            None => Vec::new(),
                        };
                        let ghost listed = ids@;
                        ids.push(n);
                        round_puzzles.insert(round, ids);
                        proof {
                            let old_lists = lists_of(before);
                            assert(listed == (match types::lookup(old_lists, round) {
                                Some(ids) => ids,
                                None => Seq::empty(),
                            }));
                            assert(lists_of(round_puzzles@) =~= old_lists.insert(
                                round,
                                listed.push(n),
                            ));
                        }
                    }
                }
            }
            j += 1;
        }
        assert(puzzles@.take(j as int) == puzzles@);
        GateIndex { puzzle_slugs, round_slugs, round_puzzles }
    }

    pub fn puzzle_slug(&self, slug: &str) -> (r: Option<PuzzleId>)
        ensures
            r == types::lookup(self.puzzle_slugs@, slug@),
    {
        match self.puzzle_slugs.get(slug) {
            Some(n) => Some(*n),
            None => None,
        }
    }

    pub fn round_slug(&self, slug: &str) -> (r: Option<RoundId>)
        ensures
            r == types::lookup(self.round_slugs@, slug@),
    {
        match self.round_slugs.get(slug) {
            Some(n) => Some(*n),
            None => None,
        }
    }

    pub fn round_puzzles(&self, id: RoundId) -> (r: Option<Vec<PuzzleId>>)
        ensures
            match r {
                Some(v) => types::lookup(lists_of(self.round_puzzles@), id) == Some(v@),
                None => types::lookup(lists_of(self.round_puzzles@), id) is None,
            },
    {
        match self.round_puzzles.get(&id) {
            Some(ids) => {
                let copy = ids.clone();
                assert(copy@ =~= ids@);
                Some(copy)
            },
            None => None,
        }
    }
}

/// The stored id that a number in a condition stands for; numbers beyond the range of ids stand for
/// the last one.
pub open spec fn stored_id(id: PuzzleId) -> i32 {
    if id <= i32::MAX {
        id as i32
    } else {
        i32::MAX
    }
}

fn to_stored_id(id: PuzzleId) -> (r: i32)
    ensures
        r == stored_id(id),
{
    if id <= i32::MAX as u32 {
        id as i32
    } else {
        i32::MAX
    }
}

/// Whether a list of triggers holds one.
pub open spec fn is_listed_trigger(v: Seq<(i32, String)>, id: i32, key: Seq<char>) -> bool {
    exists|i: int| 0 <= i < v.len() && (#[trigger] v[i]).0 == id && v[i].1@ == key
}

fn has_trigger(v: &Vec<(i32, String)>, id: i32, key: &str) -> (r: bool)
    ensures
        r == is_listed_trigger(v@, id, key@),
{
    let mut i: usize = 0;
    while i < v.len()
        invariant
            i <= v@.len(),
            forall|k: int| 0 <= k < i ==> !((#[trigger] v@[k]).0 == id && v@[k].1@ == key@),
        decreases v@.len() - i,
    {
        if v[i].0 == id && same(v[i].1.as_str(), key) {
            assert(v@[i as int].0 == id);
            return true;
        }
        i += 1;
    }
    false
}

fn has_id(v: &Vec<i32>, id: i32) -> (r: bool)
    ensures
        r == v@.contains(id),
{
    let mut i: usize = 0;
    while i < v.len()
        invariant
            i <= v@.len(),
            forall|k: int| 0 <= k < i ==> #[trigger] v@[k] != id,
        decreases v@.len() - i,
    {
        if v[i] == id {
            assert(v@[i as int] == id);
            return true;
        }
        i += 1;
    }
    false
}

/// A team's progress by stored ids: what unlocks puzzles and enables hints.
pub struct RbPuzzleStates<'a> {
    pub solved: Vec<i32>,
    pub index: &'a GateIndex,
    pub triggers: &'a Vec<(i32, String)>,
    pub game_started: bool,
}

/// The puzzles and triggers that stored ids amount to, beside the names that an index gives.
pub open spec fn stored_progress(
    solved: Seq<i32>,
    index: GateIndex,
    triggers: Seq<(i32, String)>,
    game_started: bool,
) -> Progress {
    Progress {
        solved: Set::new(|id: PuzzleId| solved.contains(stored_id(id))),
        puzzle_slugs: index.puzzle_slugs@,
        round_slugs: index.round_slugs@,
        round_puzzles: lists_of(index.round_puzzles@),
        game_started,
        triggered: Set::new(
            |t: (PuzzleId, Seq<char>)| is_listed_trigger(triggers, stored_id(t.0), t.1),
        ),
    }
}

/// A team's progress, read off the rows of its game.
pub open spec fn rows_progress(
    solved: Seq<i32>,
    rounds: Seq<RoundRow>,
    puzzles: Seq<PuzzleRow>,
    reading: Reading,
    triggers: Seq<(i32, String)>,
    game_started: bool,
) -> Progress {
    Progress {
        solved: Set::new(|id: PuzzleId| solved.contains(stored_id(id))),
        puzzle_slugs: puzzle_slugs_of(puzzles, reading),
        round_slugs: round_slugs_of(rounds, reading),
        round_puzzles: round_puzzles_of(puzzles, reading),
        game_started,
        triggered: Set::new(
            |t: (PuzzleId, Seq<char>)| is_listed_trigger(triggers, stored_id(t.0), t.1),
        ),
    }
}

pub open spec fn nonnegative(id: i32) -> PuzzleId {
    if id >= 0 {
        id as PuzzleId
    } else {
        0
    }
}

impl<'a> PuzzleStates for RbPuzzleStates<'a> {
    open spec fn progress(&self) -> Progress {
        stored_progress(self.solved@, *self.index, self.triggers@, self.game_started)
    }

    open spec fn solved_list(&self) -> Set<PuzzleId> {
        Set::new(
            |id: PuzzleId|
                exists|i: int|
                    0 <= i < self.solved@.len() && id == nonnegative(#[trigger] self.solved@[i]),
        )
    }

    fn is_solved(&self, id: PuzzleId) -> (r: bool) {
        has_id(&self.solved, to_stored_id(id))
    }

    fn solved(&self) -> (r: Vec<PuzzleId>) {
        let mut out: Vec<PuzzleId> = Vec::new();
        let mut i: usize = 0;
        while i < self.solved.len()
            invariant
                i <= self.solved@.len(),
                out@.len() == i,
                forall|k: int| 0 <= k < i ==> #[trigger] out@[k] == nonnegative(self.solved@[k]),
            decreases self.solved@.len() - i,
        {
            let id: i32 = self.solved[i];
            if id >= 0 {
                out.push(id as PuzzleId);
            } else {
                out.push(0);
            }
            i += 1;
        }
        proof {
            assert forall|id: PuzzleId|
                out@.contains(id) <==> self.solved_list().contains(id) by {
                if out@.contains(id) {
                    let k = choose|k: int| 0 <= k < out@.len() && out@[k] == id;
                    assert(id == nonnegative(self.solved@[k]));
                }
                if self.solved_list().contains(id) {
                    let k = choose|k: int|
                        0 <= k < self.solved@.len() && id == nonnegative(
                            #[trigger] self.solved@[k],
                        );
                    assert(out@[k] == id);
                }
            }
        }
        out
    }

    fn puzzle_slug(&self, slug: &str) -> (r: Option<PuzzleId>) {
        self.index.puzzle_slug(slug)
    }

    fn round_slug(&self, slug: &str) -> (r: Option<RoundId>) {
        self.index.round_slug(slug)
    }

    fn round_puzzles(&self, id: RoundId) -> (r: Option<Vec<PuzzleId>>) {
        self.index.round_puzzles(id)
    }

    fn game_started(&self) -> (r: bool) {
        self.game_started
    }

    fn is_triggered(&self, id: PuzzleId, key: &str) -> (r: bool) {
        has_trigger(self.triggers, to_stored_id(id), key)
    }
}

/// The number under which a row is known: its own where it is not negative, and otherwise 0 or none.
pub proof fn rows_are_known_by_their_ids(id: i32, reading: Reading)
    ensures
        id >= 0 ==> number_of(id, reading) == Some(id as u32) && number_of(id, reading)->0 == id,
        id < 0 && reading.negative_is_zero ==> number_of(id, reading) == Some(0u32),
        id < 0 && !reading.negative_is_zero ==> number_of(id, reading) is None,
        id >= 0 ==> stored_id(id as u32) == id && nonnegative(id) == id,
{
}

/// A puzzle that is read after others bears its slug alone from then on, and takes no other from
/// its puzzle; rounds do likewise. Without rows no slug is known.
pub proof fn slugs_name_the_last_row(
    puzzles: Seq<PuzzleRow>,
    puzzle: PuzzleRow,
    rounds: Seq<RoundRow>,
    round: RoundRow,
    reading: Reading,
    slug: Seq<char>,
)
    ensures
        types::lookup(puzzle_slugs_of(Seq::empty(), reading), slug) is None,
        types::lookup(round_slugs_of(Seq::empty(), reading), slug) is None,
        puzzle.id >= 0 && (puzzle.slug matches Some(own) && own@ == slug) ==> types::lookup(
            puzzle_slugs_of(puzzles.push(puzzle), reading),
            slug,
        ) == Some(puzzle.id as u32),
        !(puzzle.slug matches Some(own) && own@ == slug) ==> types::lookup(
            puzzle_slugs_of(puzzles.push(puzzle), reading),
            slug,
        ) == types::lookup(puzzle_slugs_of(puzzles, reading), slug),
        round.id >= 0 && (round.slug matches Some(own) && own@ == slug) ==> types::lookup(
            round_slugs_of(rounds.push(round), reading),
            slug,
        ) == Some(round.id as u32),
        !(round.slug matches Some(own) && own@ == slug) ==> types::lookup(
            round_slugs_of(rounds.push(round), reading),
            slug,
        ) == types::lookup(round_slugs_of(rounds, reading), slug),
{
    assert(puzzles.push(puzzle).drop_last() =~= puzzles);
    assert(rounds.push(round).drop_last() =~= rounds);
}

/// A puzzle belongs to its own round and to no other: it comes last of its round, unless it is the
/// one that opens the round where that does not count, and the lists of other rounds stay.
pub proof fn puzzles_belong_to_their_rounds(
    rows: Seq<PuzzleRow>,
    row: PuzzleRow,
    reading: Reading,
    round: RoundId,
)
    requires
        row.id >= 0,
        row.round_id >= 0,
    ensures
        types::lookup(round_puzzles_of(Seq::empty(), reading), round) is None,
        round != row.round_id || (row.round_puzzle_id == Some(row.id) && !reading.counts_opener)
            ==> types::lookup(round_puzzles_of(rows.push(row), reading), round) == types::lookup(
            round_puzzles_of(rows, reading),
            round,
        ),
        round == row.round_id && (row.round_puzzle_id != Some(row.id) || reading.counts_opener)
            ==> types::lookup(round_puzzles_of(rows.push(row), reading), round) == Some(
            (match types::lookup(round_puzzles_of(rows, reading), round) {
                Some(ids) => ids,
                None => Seq::<PuzzleId>::empty(),
            }).push(row.id as u32),
        ),
{
    assert(rows.push(row).drop_last() =~= rows);
}

/// A team's progress is what is stored of it: a puzzle counts as solved exactly where its id is
/// among the solved ones, a trigger exactly where it is listed for the puzzle, and the game counts
/// as started where it is.
pub proof fn progress_is_what_is_stored(
    solved: Seq<i32>,
    rounds: Seq<RoundRow>,
    puzzles: Seq<PuzzleRow>,
    reading: Reading,
    triggers: Seq<(i32, String)>,
    game_started: bool,
    id: i32,
    key: Seq<char>,
)
    requires
        id >= 0,
    ensures
        ({
            let m = rows_progress(solved, rounds, puzzles, reading, triggers, game_started);
            &&& m.solved.contains(id as u32) <==> solved.contains(id)
            &&& m.triggered.contains((id as u32, key)) <==> exists|i: int|
                0 <= i < triggers.len() && (#[trigger] triggers[i]).0 == id && triggers[i].1@ == key
            &&& m.game_started == game_started
            &&& m.puzzle_slugs == puzzle_slugs_of(puzzles, reading)
            &&& m.round_slugs == round_slugs_of(rounds, reading)
            &&& m.round_puzzles == round_puzzles_of(puzzles, reading)
        }),
{
}

/// Progress that is read off an index is that of the rows which the index is made of.
pub proof fn indexes_give_the_progress_of_their_rows(
    solved: Seq<i32>,
    index: GateIndex,
    rounds: Seq<RoundRow>,
    puzzles: Seq<PuzzleRow>,
    reading: Reading,
    triggers: Seq<(i32, String)>,
    game_started: bool,
)
    requires
        index.indexes(rounds, puzzles, reading),
    ensures
        stored_progress(solved, index, triggers, game_started) == rows_progress(
            solved,
            rounds,
            puzzles,
            reading,
            triggers,
            game_started,
        ),
{
}

/// The puzzles that are listed as solved are those that are stored as solved, a negative number standing
/// for zero.
pub proof fn listed_puzzles_are_those_stored(states: RbPuzzleStates, id: i32)
    ensures
        id >= 0 && states.solved@.contains(id) ==> states.solved_list().contains(id as u32),
        id > 0 && states.solved_list().contains(id as u32) ==> states.solved@.contains(id),
{
    if id >= 0 && states.solved@.contains(id) {
        let i = choose|i: int| 0 <= i < states.solved@.len() && states.solved@[i] == id;
        assert(id as u32 == nonnegative(states.solved@[i]));
    }
    if id > 0 && states.solved_list().contains(id as u32) {
        let i = choose|i: int|
            0 <= i < states.solved@.len() && id as u32 == nonnegative(#[trigger] states.solved@[i]);
        assert(states.solved@[i] == id);
    }
}

} // verus!
