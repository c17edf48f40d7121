//! Blocks of content, and which of them a team sees.
use sha2::{Digest, Sha256};
use vstd::prelude::*;

use crate::text;
use crate::clock::Timestamp;
use crate::db::states::{GateIndex, PuzzleRow, Reading, RoundRow};
use crate::db::states;
use crate::error::{fault, RbInternalError};
use crate::expr::{compile_gate_expr, CompileCache};
use crate::expr;
use crate::expr::ast::{eval_compiled, GateExpr};
use crate::expr::ast;
use crate::expr::types::{Progress, PuzzleId, PuzzleStates, RoundId};
use crate::game::judge;
use crate::ids;
use crate::json;
use crate::model::game::RbContentType;
use crate::text::{hex_string, same};

verus! {

/// A block of content, as administrators see it.
#[derive(Debug)]
pub struct RbContentBlockAdminData {
    pub id: i32,
    pub puzzle_id: Option<i32>,
    pub round_id: Option<i32>,
    pub sort: i32,
    pub name: String,
    pub content: String,
    pub content_type: i16,
    pub cdn_backend: Option<String>,
    pub cdn_object_key: Option<String>,
    pub cdn_relative_path: Option<String>,
    pub cdn_sha256: Option<String>,
    pub cdn_size: Option<i64>,
    pub visibility_cond: Option<String>,
    pub ctime_at: Timestamp,
    pub utime_at: Timestamp,
}

/// A block of content, as it is shown.
#[derive(Debug)]
pub struct RbContentBlockShowData {
    pub id: i32,
    pub sort: i32,
    pub content: String,
    pub content_type: RbContentType,
    pub revision: String,
    pub content_url: Option<String>,
}

/// Where the content of a block is stored outside.
#[derive(Debug, Clone, Copy)]
pub struct ContentBlockArtifact<'a> {
    pub backend: &'a str,
    pub object_key: &'a str,
    pub relative_path: &'a str,
    pub sha256: &'a str,
    pub size: i64,
}

/// What a block is changed to.
#[derive(Debug, Clone, Copy)]
pub struct ContentBlockUpdate<'a> {
    pub name: &'a str,
    pub content: &'a str,
    pub content_type: i16,
    pub visibility_cond: Option<&'a str>,
    pub update_artifact: bool,
    pub artifact: Option<ContentBlockArtifact<'a>>,
}

/// What is deleted outside with a block.
#[derive(Debug)]
pub struct ContentBlockArtifactDelete {
    pub backend: String,
    pub object_key: String,
    pub relative_path: String,
}

impl RbContentBlockAdminData {
    /// Whether the content of the block is stored outside.
    pub open spec fn is_outside(self) -> bool {
        self.cdn_backend is Some && self.cdn_object_key is Some && self.cdn_relative_path is Some
    }

    /// What is deleted outside with the block.
    pub fn artifact_delete(&self) -> (r: Option<ContentBlockArtifactDelete>)
        ensures
            match r {
                Some(d) => {
                    &&& self.is_outside()
                    &&& d.backend@ == self.cdn_backend->0@
                    &&& d.object_key@ == self.cdn_object_key->0@
                    &&& d.relative_path@ == self.cdn_relative_path->0@
                },
                None => !self.is_outside(),
            },
    {
        match (&self.cdn_backend, &self.cdn_object_key, &self.cdn_relative_path) {
            (Some(backend), Some(object_key), Some(relative_path)) => Some(
                ContentBlockArtifactDelete {
                    backend: backend.clone(),
                    object_key: object_key.clone(),
                    relative_path: relative_path.clone(),
                },
            ),
            _ => None,
        }
    }
}

/// Whether all the puzzles that were named are there, given how many were counted.
pub fn admin_puzzles_exist(count: Option<i64>, named: usize) -> (r: bool)
    requires
        named <= i64::MAX,
    ensures
        r == ((match count {
            Some(n) => n as int,
            None => 0,
        }) == named),
{
    let count: i64 = match count {
        Some(n) => n,
        None => 0,
    };
    count == named as i64
}

/// Whether a change of a block makes the teams' content stale: the block is there, and its condition
/// is not what it was.
pub fn makes_stale(
    updated: bool,
    previous_condition: &Option<Option<String>>,
    condition: Option<&str>,
) -> (r: bool)
    ensures
        r == (updated && (match *previous_condition {
            Some(previous) => judge::text_in(previous),
            None => None,
        }) != json::str_view(condition)),
{
    if !updated {
        return false;
    }
    match previous_condition {
        Some(Some(previous)) => match condition {
            Some(text) => !same(previous.as_str(), text),
            None => true,
        },
        _ => condition.is_some(),
    }
}

/// Which place a new block takes, if it can be made: it belongs to one puzzle or to one round that is
/// there, and comes behind the blocks that are there. `sorts` are their places.
pub fn admin_create(
    puzzle_id: Option<i32>,
    round_id: Option<i32>,
    owner_exists: bool,
    sorts: &Vec<i32>,
) -> (r: Result<Option<i32>, RbInternalError>)
    ensures
        match r {
            Ok(Some(sort)) => {
                &&& owner_exists && (puzzle_id is Some <==> round_id is None)
                &&& sort == next_sort(sorts@)
            },
            Ok(None) => !owner_exists || (puzzle_id is Some <==> round_id is Some),
            Err(e) => {
                &&& owner_exists && (puzzle_id is Some <==> round_id is None)
                &&& next_sort(sorts@) > i32::MAX
                &&& e.text() == "integer out of range"@
            },
        },
{
    if !owner_exists || puzzle_id.is_some() == round_id.is_some() {
        return Ok(None);
    }
    if sorts.len() == 0 {
        return Ok(Some(0));
    }
    let mut last: i32 = sorts[0];
    let mut i: usize = 1;
    assert(sorts@.take(1).drop_last() =~= Seq::empty());
    while i < sorts.len()
        invariant
            1 <= i <= sorts@.len(),
            next_sort(sorts@.take(i as int)) == last + 1,
        decreases sorts@.len() - i,
    {
        assert(sorts@.take(i + 1).drop_last() =~= sorts@.take(i as int));
        assert(sorts@.take(i + 1).last() == sorts@[i as int]);
        if sorts[i] > last {
            last = sorts[i];
        }
        i += 1;
    }
    assert(sorts@.take(i as int) =~= sorts@);
    if last == i32::MAX {
        return Err(fault("integer out of range"));
    }
    Ok(Some(last + 1))
}

/// The place behind all the places of a list; the first one is 0.
pub open spec fn next_sort(sorts: Seq<i32>) -> int
    decreases sorts.len(),
{
    if sorts.len() == 0 {
        0
    } else {
        let before = next_sort(sorts.drop_last());
        if sorts.len() == 1 || sorts.last() + 1 > before {
            sorts.last() + 1
        } else {
            before
        }
    }
}

/// A new block comes behind the blocks that are there.
pub proof fn new_blocks_come_last(sorts: Seq<i32>)
    ensures
        forall|i: int| 0 <= i < sorts.len() ==> #[trigger] sorts[i] < next_sort(sorts),
        sorts.len() > 0 ==> exists|i: int|
            0 <= i < sorts.len() && #[trigger] sorts[i] + 1 == next_sort(sorts),
    decreases sorts.len(),
{
    if sorts.len() > 0 {
        let before = sorts.drop_last();
        new_blocks_come_last(before);
        assert(sorts[sorts.len() - 1] == sorts.last());
        assert forall|i: int| 0 <= i < sorts.len() implies #[trigger] sorts[i] < next_sort(sorts) by {
            if i < before.len() {
                assert(before[i] == sorts[i]);
            }
        }
        if next_sort(sorts) != sorts.last() + 1 {
            let i = choose|i: int| 0 <= i < before.len() && #[trigger] before[i] + 1 == next_sort(before);
            assert(sorts[i] == before[i]);
        }
    }
}

/// Where a block's content is stored outside, in a block that holds it.
pub open spec fn holds_artifact(
    block: RbContentBlockAdminData,
    artifact: Option<ContentBlockArtifact>,
) -> bool {
    match artifact {
        Some(a) => {
            &&& judge::text_in(block.cdn_backend) == Some(a.backend@)
            &&& judge::text_in(block.cdn_object_key) == Some(a.object_key@)
            &&& judge::text_in(block.cdn_relative_path) == Some(a.relative_path@)
            &&& judge::text_in(block.cdn_sha256) == Some(a.sha256@)
            &&& block.cdn_size == Some(a.size)
        },
        None => {
            &&& block.cdn_backend is None
            &&& block.cdn_object_key is None
            &&& block.cdn_relative_path is None
            &&& block.cdn_sha256 is None
            &&& block.cdn_size is None
        },
    }
}

/// Whether two blocks differ in where their content is stored outside, and in when they were changed,
/// at most.
pub open spec fn same_but_artifact(
    block: RbContentBlockAdminData,
    old: RbContentBlockAdminData,
) -> bool {
    &&& block.id == old.id
    &&& block.puzzle_id == old.puzzle_id
    &&& block.round_id == old.round_id
    &&& block.sort == old.sort
    &&& block.name == old.name
    &&& block.content == old.content
    &&& block.content_type == old.content_type
    &&& block.visibility_cond == old.visibility_cond
    &&& block.ctime_at == old.ctime_at
}

fn put_artifact(
    block: RbContentBlockAdminData,
    artifact: Option<ContentBlockArtifact<'_>>,
    now: Timestamp,
) -> (r: RbContentBlockAdminData)
    ensures
        same_but_artifact(r, block),
        holds_artifact(r, artifact),
        r.utime_at == now,
{
    let mut changed = block;
    changed.utime_at = now;
    match artifact {
        Some(a) => {
            changed.cdn_backend = Some(a.backend.to_owned());
            changed.cdn_object_key = Some(a.object_key.to_owned());
            changed.cdn_relative_path = Some(a.relative_path.to_owned());
            changed.cdn_sha256 = Some(a.sha256.to_owned());
            changed.cdn_size = Some(a.size);
        },
        None => {
            changed.cdn_backend = None;
            changed.cdn_object_key = None;
            changed.cdn_relative_path = None;
            changed.cdn_sha256 = None;
            changed.cdn_size = None;
        },
    }
    changed
}

/// A block whose content has been stored outside.
pub fn admin_set_artifact(
    block: RbContentBlockAdminData,
    artifact: ContentBlockArtifact<'_>,
    now: Timestamp,
) -> (r: RbContentBlockAdminData)
    ensures
        same_but_artifact(r, block),
        holds_artifact(r, Some(artifact)),
        r.utime_at == now,
{
    put_artifact(block, Some(artifact), now)
}

/// A block whose content is no longer stored outside.
pub fn admin_clear_artifact(block: RbContentBlockAdminData, now: Timestamp) -> (r:
    RbContentBlockAdminData)
    ensures
        same_but_artifact(r, block),
        holds_artifact(r, None),
        r.utime_at == now,
{
    put_artifact(block, None, now)
}

/// A block counts as stored outside once an artifact was set, until it is cleared.
pub proof fn artifacts_are_outside(block: RbContentBlockAdminData, artifact: ContentBlockArtifact)
    ensures
        holds_artifact(block, Some(artifact)) ==> block.is_outside(),
        holds_artifact(block, None) ==> !block.is_outside(),
{
}

/// A block after a change, and whether the teams' content is stale with it.
#[derive(Debug)]
pub struct BlockChange {
    pub block: RbContentBlockAdminData,
    pub stale: bool,
}

/// Whether a block is what a change makes of it: where the content is stored outside stays as it was,
/// unless it is changed too.
pub open spec fn updated_to(
    block: RbContentBlockAdminData,
    old: RbContentBlockAdminData,
    data: ContentBlockUpdate,
) -> bool {
    &&& block.id == old.id
    &&& block.puzzle_id == old.puzzle_id
    &&& block.round_id == old.round_id
    &&& block.sort == old.sort
    &&& block.name@ == data.name@
    &&& block.content@ == data.content@
    &&& block.content_type == data.content_type
    &&& judge::text_in(block.visibility_cond) == json::str_view(data.visibility_cond)
    &&& block.ctime_at == old.ctime_at
    &&& if data.update_artifact {
        holds_artifact(block, data.artifact)
    } else {
        &&& block.cdn_backend == old.cdn_backend
        &&& block.cdn_object_key == old.cdn_object_key
        &&& block.cdn_relative_path == old.cdn_relative_path
        &&& block.cdn_sha256 == old.cdn_sha256
        &&& block.cdn_size == old.cdn_size
    }
}

/// A block after a change; the teams' content is stale where the condition is not what it was.
pub fn admin_update(block: RbContentBlockAdminData, data: ContentBlockUpdate<'_>, now: Timestamp) -> (r:
    BlockChange)
    ensures
        updated_to(r.block, block, data),
        r.block.utime_at == now,
        r.stale == (judge::text_in(block.visibility_cond) != json::str_view(data.visibility_cond)),
{
    let mut changed = block;
    let previous = Some(changed.visibility_cond);
    let stale = makes_stale(true, &previous, data.visibility_cond);
    changed.name = data.name.to_owned();
    changed.content = data.content.to_owned();
    changed.content_type = data.content_type;
    changed.visibility_cond = match data.visibility_cond {
        Some(condition) => Some(condition.to_owned()),
        None => None,
    };
    changed.utime_at = now;
    if data.update_artifact {
        changed = put_artifact(changed, data.artifact, now);
    }
    BlockChange { block: changed, stale }
}

/// A block that a team has unlocked.
#[derive(Debug, Clone, Copy, PartialEq, Eq, Structural)]
pub struct BlockUnlock {
    pub team_id: i32,
    pub content_block_id: i32,
}

/// What is left of the unlocked blocks once one was locked again for all teams, and the teams whose
/// content is stale with it.
#[derive(Debug)]
pub struct ClearedUnlocks {
    pub kept: Vec<BlockUnlock>,
    pub deleted: u64,
    pub stale: Vec<i32>,
}

/// The teams that have unlocked a block.
pub open spec fn unlocked_by(unlocks: Seq<BlockUnlock>, id: i32) -> Set<i32> {
    Set::new(|team_id: i32| unlocks.contains(BlockUnlock { team_id, content_block_id: id }))
}

/// The unlocked blocks without one.
pub open spec fn without_block(unlocks: Seq<BlockUnlock>, id: i32) -> Seq<BlockUnlock>
    decreases unlocks.len(),
{
    if unlocks.len() == 0 {
        Seq::empty()
    } else {
        let rest = without_block(unlocks.drop_last(), id);
        if unlocks.last().content_block_id == id {
            rest
        } else {
            rest.push(unlocks.last())
        }
    }
}

/// Locks a block again for all teams. Each team that had unlocked it is named once, in ascending
/// order.
pub fn admin_clear_unlocks(unlocks: &Vec<BlockUnlock>, id: i32) -> (r: ClearedUnlocks)
    ensures
        r.kept@ == without_block(unlocks@, id),
        r.deleted == unlocks@.len() - r.kept@.len(),
        ids::ascending(r.stale@),
        r.stale@.to_set() == unlocked_by(unlocks@, id),
{
    let mut kept: Vec<BlockUnlock> = Vec::new();
    let mut deleted: u64 = 0;
    let mut stale: Vec<i32> = Vec::new();
    let mut i: usize = 0;
    assert(stale@.to_set() =~= unlocked_by(unlocks@.take(0), id));
    while i < unlocks.len()
        invariant
            i <= unlocks@.len(),
            kept@ == without_block(unlocks@.take(i as int), id),
            deleted == i - kept@.len(),
            ids::ascending(stale@),
            stale@.to_set() == unlocked_by(unlocks@.take(i as int), id),
        decreases unlocks@.len() - i,
    {
        let ghost before = unlocks@.take(i as int);
        let ghost after = unlocks@.take(i + 1);
        let unlock = unlocks[i];
        proof {
            assert(after.drop_last() =~= before);
            assert(after.last() == unlock);
            assert forall|u: BlockUnlock| #[trigger] after.contains(u) == (before.contains(u) || u
                == unlock) by {
                if before.contains(u) {
                    let k = before.index_of(u);
                    assert(after[k] == u);
                }
                if after.contains(u) && u != unlock {
                    let k = after.index_of(u);
                    assert(before[k] == u);
                }
                assert(after[i as int] == unlock);
            }
        }
        if unlock.content_block_id == id {
            let ghost held = stale@.to_set();
            ids::insert(&mut stale, unlock.team_id);
            deleted += 1;
            assert(held.insert(unlock.team_id) =~= unlocked_by(after, id));
        } else {
            kept.push(unlock);
            assert(unlocked_by(before, id) =~= unlocked_by(after, id));
        }
        i += 1;
    }
    assert(unlocks@.take(i as int) =~= unlocks@);
    ClearedUnlocks { kept, deleted, stale }
}

/// A block that was locked again is unlocked for no team, and the other blocks stay as they were.
pub proof fn cleared_blocks_are_locked(unlocks: Seq<BlockUnlock>, id: i32, other: i32)
    ensures
        unlocked_by(without_block(unlocks, id), other) == (if other == id {
            Set::empty()
        } else {
            unlocked_by(unlocks, other)
        }),
    decreases unlocks.len(),
{
    let kept = without_block(unlocks, id);
    if unlocks.len() > 0 {
        let last = unlocks.last();
        let rest = unlocks.drop_last();
        cleared_blocks_are_locked(rest, id, other);
        assert forall|u: BlockUnlock| #[trigger] unlocks.contains(u) == (rest.contains(u) || u
            == last) by {
            if rest.contains(u) {
                assert(unlocks[rest.index_of(u)] == u);
            }
            if unlocks.contains(u) && u != last {
                assert(rest[unlocks.index_of(u)] == u);
            }
            assert(unlocks[unlocks.len() - 1] == last);
        }
        let fewer = without_block(rest, id);
        if last.content_block_id != id {
            assert forall|u: BlockUnlock| #[trigger] kept.contains(u) == (fewer.contains(u) || u
                == last) by {
                if fewer.contains(u) {
                    assert(kept[fewer.index_of(u)] == u);
                }
                if kept.contains(u) && u != last {
                    assert(fewer[kept.index_of(u)] == u);
                }
                assert(kept[kept.len() - 1] == last);
            }
        }
        assert forall|team_id: i32| #[trigger]
            unlocked_by(kept, other).contains(team_id) == (other != id && unlocked_by(
                unlocks,
                other,
            ).contains(team_id)) by {
            let u = BlockUnlock { team_id, content_block_id: other };
            assert(unlocked_by(fewer, other).contains(team_id) == fewer.contains(u));
            assert(unlocked_by(rest, other).contains(team_id) == rest.contains(u));
            assert(kept.contains(u) == unlocked_by(kept, other).contains(team_id));
            assert(unlocks.contains(u) == unlocked_by(unlocks, other).contains(team_id));
        }
    }
    assert(unlocked_by(kept, other) =~= (if other == id {
        Set::empty()
    } else {
        unlocked_by(unlocks, other)
    }));
}

/// Whether blocks can be put into a given order: it names each of them once, and nothing else.
pub fn admin_reorder(current: &Vec<i32>, ids: &Vec<i32>) -> (r: bool)
    ensures
        r == (ids::distinct(ids@) && current@.to_set() == ids@.to_set()),
{
    if !ids::all_distinct(ids) {
        return false;
    }
    let same_set = within(current, ids) && within(ids, current);
    proof {
        if same_set {
            assert(current@.to_set() =~= ids@.to_set());
        } else if current@.to_set() == ids@.to_set() {
            assert forall|i: int| 0 <= i < current@.len() implies ids@.contains(
                #[trigger] current@[i],
            ) by {
                assert(current@.to_set().contains(current@[i]));
                assert(ids@.to_set().contains(current@[i]));
            }
            assert forall|i: int| 0 <= i < ids@.len() implies current@.contains(
                #[trigger] ids@[i],
            ) by {
                assert(ids@.to_set().contains(ids@[i]));
                assert(current@.to_set().contains(ids@[i]));
            }
        }
    }
    same_set
}

/// The places of blocks that are put into a given order: each takes the place at which it is named.
pub fn reordered_places(ids: &Vec<i32>) -> (r: Vec<(i32, i32)>)
    ensures
        r@.len() == ids@.len(),
        forall|i: int| 0 <= i < ids@.len() ==> #[trigger] r@[i] == (ids@[i], i as i32),
{
    let mut places: Vec<(i32, i32)> = Vec::new();
    let mut i: usize = 0;
    while i < ids.len()
        invariant
            i <= ids@.len(),
            places@.len() == i,
            forall|k: int| 0 <= k < i ==> #[trigger] places@[k] == (ids@[k], k as i32),
        decreases ids@.len() - i,
    {
        places.push((ids[i], i as i32));
        i += 1;
    }
    places
}

/// Blocks that were put into an order stand in that order: of two blocks the one that is named first
/// has the lower place, and no other block has it.
pub proof fn blocks_stand_as_they_are_named(
    current: Seq<i32>,
    ids: Seq<i32>,
    places: Seq<(i32, i32)>,
    i: int,
    j: int,
)
    requires
        ids::distinct(ids),
        current.to_set() == ids.to_set(),
        ids.len() <= i32::MAX,
        places.len() == ids.len(),
        forall|k: int| 0 <= k < ids.len() ==> #[trigger] places[k] == (ids[k], k as i32),
        0 <= i < j < ids.len(),
    ensures
        current.contains(places[i].0),
        places[i].0 != places[j].0,
        places[i].1 < places[j].1,
{
    assert(ids.to_set().contains(ids[i]));
    assert(current.to_set().contains(ids[i]));
}

fn within(a: &Vec<i32>, b: &Vec<i32>) -> (r: bool)
    ensures
        r == (forall|i: int| 0 <= i < a@.len() ==> b@.contains(#[trigger] a@[i])),
{
    let mut i: usize = 0;
    while i < a.len()
        invariant
            i <= a@.len(),
            forall|k: int| 0 <= k < i ==> b@.contains(#[trigger] a@[k]),
        decreases a@.len() - i,
    {
        if !ids::contains(b, a[i]) {
            assert(!b@.contains(a@[i as int]));
            return false;
        }
        i += 1;
    }
    true
}

/// How the rows of a game are read when blocks open.
pub open spec fn content_reading() -> Reading {
    Reading { negative_is_zero: false, counts_opener: true }
}

/// A team's progress by numbers: what opens blocks of content.
pub struct TeamContentStates<'a> {
    pub solved: Vec<u32>,
    pub index: &'a GateIndex,
    pub triggers: Vec<(u32, String)>,
    pub game_started: bool,
}

/// Whether a list of triggers holds one.
pub open spec fn lists_trigger(v: Seq<(u32, String)>, id: u32, key: Seq<char>) -> bool {
    exists|i: int| 0 <= i < v.len() && (#[trigger] v[i]).0 == id && v[i].1@ == key
}

impl<'a> PuzzleStates for TeamContentStates<'a> {
    open spec fn progress(&self) -> Progress {
        Progress {
            solved: self.solved@.to_set(),
            puzzle_slugs: self.index.puzzle_slugs@,
            round_slugs: self.index.round_slugs@,
            round_puzzles: states::lists_of(self.index.round_puzzles@),
            game_started: self.game_started,
            triggered: Set::new(
                |t: (PuzzleId, Seq<char>)| lists_trigger(self.triggers@, t.0, t.1),
            ),
        }
    }

    open spec fn solved_list(&self) -> Set<PuzzleId> {
        self.solved@.to_set()
    }

    fn is_solved(&self, id: PuzzleId) -> (r: bool) {
        let mut i: usize = 0;
        while i < self.solved.len()
            invariant
                i <= self.solved@.len(),
                forall|k: int| 0 <= k < i ==> #[trigger] self.solved@[k] != id,
            decreases self.solved@.len() - i,
        {
            if self.solved[i] == id {
                assert(self.solved@[i as int] == id);
                return true;
            }
            i += 1;
        }
        false
    }

    fn solved(&self) -> (r: Vec<PuzzleId>) {
        let copy = self.solved.clone();
        assert(copy@ =~= self.solved@);
        copy
    }

    fn puzzle_slug(&self, slug: &str) -> (r: Option<PuzzleId>) {
        self.index.puzzle_slug(slug)
    }

    fn round_slug(&self, slug: &str) -> (r: Option<RoundId>) {
        self.index.round_slug(slug)
    }

    fn round_puzzles(&self, id: RoundId) -> (r: Option<Vec<PuzzleId>>) {
        self.index.round_puzzles(id)
    }

    fn game_started(&self) -> (r: bool) {
        self.game_started
    }

    fn is_triggered(&self, id: PuzzleId, key: &str) -> (r: bool) {
        let mut i: usize = 0;
        while i < self.triggers.len()
            invariant
                i <= self.triggers@.len(),
                forall|k: int|
                    0 <= k < i ==> !((#[trigger] self.triggers@[k]).0 == id
                        && self.triggers@[k].1@ == key@),
            decreases self.triggers@.len() - i,
        {
            if self.triggers[i].0 == id && same(self.triggers[i].1.as_str(), key) {
                assert(self.triggers@[i as int].0 == id);
                return true;
            }
            i += 1;
        }
        false
    }
}

/// The ids that are not negative, as numbers.
pub open spec fn numbers(ids: Seq<i32>) -> Seq<u32>
    decreases ids.len(),
{
    if ids.len() == 0 {
        Seq::empty()
    } else if ids.last() >= 0 {
        numbers(ids.drop_last()).push(ids.last() as u32)
    } else {
        numbers(ids.drop_last())
    }
}

fn to_numbers(ids: &Vec<i32>) -> (r: Vec<u32>)
    ensures
        r@ == numbers(ids@),
{
    let mut out: Vec<u32> = Vec::new();
    let mut i: usize = 0;
    while i < ids.len()
        invariant
            i <= ids@.len(),
            out@ == numbers(ids@.take(i as int)),
        decreases ids@.len() - i,
    {
        assert(ids@.take(i + 1).drop_last() =~= ids@.take(i as int));
        assert(ids@.take(i + 1).last() == ids@[i as int]);
        if ids[i] >= 0 {
            out.push(ids[i] as u32);
        }
        i += 1;
    }
    assert(ids@.take(i as int) =~= ids@);
    out
}

/// Whether triggers hold one of a puzzle.
pub open spec fn stored_trigger(rows: Seq<(i32, String)>, id: u32, key: Seq<char>) -> bool {
    exists|i: int| 0 <= i < rows.len() && (#[trigger] rows[i]).0 == id && rows[i].1@ == key
}

fn to_triggers(rows: &Vec<(i32, String)>) -> (r: Vec<(u32, String)>)
    ensures
        forall|id: u32, key: Seq<char>| #[trigger]
            lists_trigger(r@, id, key) == stored_trigger(rows@, id, key),
{
    let mut out: Vec<(u32, String)> = Vec::new();
    let mut i: usize = 0;
    while i < rows.len()
        invariant
            i <= rows@.len(),
            forall|id: u32, key: Seq<char>| #[trigger]
                lists_trigger(out@, id, key) == stored_trigger(rows@.take(i as int), id, key),
        decreases rows@.len() - i,
    {
        let ghost before = out@;
        if rows[i].0 >= 0 {
            out.push((rows[i].0 as u32, rows[i].1.clone()));
        }
        proof {
            assert forall|id: u32, key: Seq<char>| #[trigger]
                lists_trigger(out@, id, key) == stored_trigger(rows@.take(i + 1), id, key) by {
                let was = lists_trigger(before, id, key);
                assert(was == stored_trigger(rows@.take(i as int), id, key));
                if lists_trigger(out@, id, key) {
                    let k = choose|k: int|
                        0 <= k < out@.len() && (#[trigger] out@[k]).0 == id && out@[k].1@ == key;
                    if k < before.len() {
                        assert(before[k] == out@[k]);
                        assert(was);
                    } else {
                        assert(rows@.take(i + 1)[i as int].0 == id);
                    }
                }
                if was {
                    let k = choose|k: int|
                        0 <= k < before.len() && (#[trigger] before[k]).0 == id && before[k].1@
                            == key;
                    assert(out@[k] == before[k]);
                    let m = choose|m: int|
                        0 <= m < i && (#[trigger] rows@.take(i as int)[m]).0 == id && rows@.take(
                            i as int,
                        )[m].1@ == key;
                    assert(rows@.take(i + 1)[m] == rows@.take(i as int)[m]);
                }
                if stored_trigger(rows@.take(i + 1), id, key) {
                    let m = choose|m: int|
                        0 <= m < i + 1 && (#[trigger] rows@.take(i + 1)[m]).0 == id && rows@.take(
                            i + 1,
                        )[m].1@ == key;
                    if m < i {
                        assert(rows@.take(i as int)[m] == rows@.take(i + 1)[m]);
                        assert(was);
                    } else {
                        assert(out@[out@.len() - 1].0 == id);
                    }
                }
            }
        }
        i += 1;
    }
    assert(rows@.take(i as int) =~= rows@);
    out
}

/// A team's progress, read off the rows of its game.
pub open spec fn content_progress(
    solved: Seq<i32>,
    rounds: Seq<RoundRow>,
    puzzles: Seq<PuzzleRow>,
    triggers: Seq<(i32, String)>,
    game_started: bool,
) -> Progress {
    Progress {
        solved: numbers(solved).to_set(),
        puzzle_slugs: states::puzzle_slugs_of(puzzles, content_reading()),
        round_slugs: states::round_slugs_of(rounds, content_reading()),
        round_puzzles: states::round_puzzles_of(puzzles, content_reading()),
        game_started,
        triggered: Set::new(|t: (PuzzleId, Seq<char>)| stored_trigger(triggers, t.0, t.1)),
    }
}

/// A block with its condition.
#[derive(Debug)]
pub struct BlockCondition {
    pub id: i32,
    pub visibility_cond: Option<String>,
}

/// Whether a block opens to a team: it has a condition that compiles and holds.
pub open spec fn block_opens(block: BlockCondition, m: Progress) -> bool {
    &&& block.visibility_cond matches Some(text)
    &&& expr::gate_in(text@) matches Ok(g)
    &&& ast::holds(m, g)
}

/// The blocks that open to a team, of those that have not opened before.
pub open spec fn opening_blocks(
    blocks: Seq<BlockCondition>,
    unlocked: Seq<i32>,
    m: Progress,
) -> Seq<i32>
    decreases blocks.len(),
{
    if blocks.len() == 0 {
        Seq::empty()
    } else {
        let rest = opening_blocks(blocks.drop_last(), unlocked, m);
        if !unlocked.contains(blocks.last().id) && block_opens(blocks.last(), m) {
            rest.push(blocks.last().id)
        } else {
            rest
        }
    }
}

/// Whether a team's content is worked out anew: the team is there, and its content is stale.
pub fn needs_refresh(content_blocks_dirty: Option<bool>) -> (r: bool)
    ensures
        r == (content_blocks_dirty == Some(true)),
{
    match content_blocks_dirty {
        Some(dirty) => dirty,
        None => false,
    }
}

/// The blocks that open to a team whose content is worked out anew.
pub fn refresh_team_unlocks(
    cache: &mut CompileCache<GateExpr>,
    blocks: &Vec<BlockCondition>,
    unlocked: &Vec<i32>,
    solved: &Vec<i32>,
    rounds: &Vec<RoundRow>,
    puzzles: &Vec<PuzzleRow>,
    triggers: &Vec<(i32, String)>,
    game_started: bool,
) -> (r: Vec<i32>)
    requires
        expr::gates_right(old(cache)@),
    ensures
        expr::gates_right(final(cache)@),
        r@ == opening_blocks(
            blocks@,
            unlocked@,
            content_progress(solved@, rounds@, puzzles@, triggers@, game_started),
        ),
{
    let index = GateIndex::build(
        rounds,
        puzzles,
        Reading { negative_is_zero: false, counts_opener: true },
    );
    let states = TeamContentStates {
        solved: to_numbers(solved),
        index: &index,
        triggers: to_triggers(triggers),
        game_started,
    };
    let ghost m = content_progress(solved@, rounds@, puzzles@, triggers@, game_started);
    proof {
        assert(states.progress().triggered =~= m.triggered) by {
            assert forall|t: (PuzzleId, Seq<char>)| #[trigger]
                states.progress().triggered.contains(t) == m.triggered.contains(t) by {
                assert(lists_trigger(states.triggers@, t.0, t.1) == stored_trigger(
                    triggers@,
                    t.0,
                    t.1,
                ));
            }
        }
        assert(states.progress() == m);
    }
    let mut opened: Vec<i32> = Vec::new();
    let mut i: usize = 0;
    while i < blocks.len()
        invariant
            i <= blocks@.len(),
            expr::gates_right(cache@),
            states.progress() == m,
            opened@ == opening_blocks(blocks@.take(i as int), unlocked@, m),
        decreases blocks@.len() - i,
    {
        let block = &blocks[i];
        proof {
            assert(blocks@.take(i + 1).drop_last() =~= blocks@.take(i as int));
            assert(blocks@.take(i + 1).last() == *block);
        }
        if !ids::contains(unlocked, block.id) {
            if let Some(text) = &block.visibility_cond {
                if let Ok(gate) = compile_gate_expr(cache, text.as_str()) {
                    if eval_compiled(&states, &gate) {
                        opened.push(block.id);
                    }
                }
            }
        }
        i += 1;
    }
    assert(blocks@.take(i as int) =~= blocks@);
    opened
}

/// The SHA-256 digest of some bytes.
pub uninterp spec fn sha256_digest(bytes: Seq<u8>) -> Seq<u8>;

/// `sha2::Sha256::digest`: the digest of the whole input, which is 32 bytes.
#[verifier::external_body]
fn sha256_of(bytes: &Vec<u8>) -> (r: Vec<u8>)
    ensures
        r@ == sha256_digest(bytes@),
        r@.len() == 32,
{
    Sha256::digest(bytes).to_vec()
}

/// The two bytes of a number, the lower one first.
pub open spec fn low_high(n: i16) -> Seq<u8> {
    let u = if n >= 0 {
        n as int
    } else {
        n + 65536
    };
    seq![(u % 256) as u8, (u / 256) as u8]
}

/// The bytes by which a revision of a block is told from others: those of its type, then those of
/// its content.
pub open spec fn revision_bytes(content_type: i16, content: Seq<char>) -> Seq<u8> {
    low_high(content_type) + vstd::utf8::encode_utf8(content)
}

/// The name of a revision of a block.
pub fn revision(content_type: i16, content: &str) -> (r: String)
    ensures
        r@ == text::hex(sha256_digest(revision_bytes(content_type, content@))),
{
    let u: u32 = if content_type >= 0 {
        content_type as u32
    } else {
        (content_type as i32 + 65536) as u32
    };
    let mut bytes: Vec<u8> = Vec::new();
    bytes.push((u % 256) as u8);
    bytes.push((u / 256) as u8);
    let text = content.as_bytes();
    let mut i: usize = 0;
    assert(bytes@ =~= low_high(content_type) + text@.take(0));
    while i < text.len()
        invariant
            i <= text@.len(),
            bytes@ == low_high(content_type) + text@.take(i as int),
        decreases text@.len() - i,
    {
        bytes.push(text[i]);
        assert(bytes@ =~= low_high(content_type) + text@.take(i + 1));
        i += 1;
    }
    assert(text@.take(i as int) =~= text@);
    hex_string(sha256_of(&bytes).as_slice())
}

/// Whether a team sees a block: it has no condition, or it has opened.
pub open spec fn is_visible(block: RbContentBlockAdminData, unlocked: Seq<i32>) -> bool {
    block.visibility_cond is None || unlocked.contains(block.id)
}

/// What is shown of a block: its content, or an address where the content is found.
pub struct ShownBlock {
    pub id: i32,
    pub sort: i32,
    pub content: Seq<char>,
    pub content_type: RbContentType,
    pub revision: Seq<char>,
    pub content_url: Option<Seq<char>>,
}

impl RbContentBlockShowData {
    pub open spec fn shown(self) -> ShownBlock {
        ShownBlock {
            id: self.id,
            sort: self.sort,
            content: self.content@,
            content_type: self.content_type,
            revision: self.revision@,
            content_url: judge::text_in(self.content_url),
        }
    }
}

pub open spec fn shown_block(block: RbContentBlockAdminData, url: Option<String>) -> ShownBlock {
    ShownBlock {
        id: block.id,
        sort: block.sort,
        content: if url is Some {
            ""@
        } else {
            block.content@
        },
        content_type: RbContentType::from_code(block.content_type),
        revision: text::hex(sha256_digest(revision_bytes(block.content_type, block.content@))),
        content_url: judge::text_in(url),
    }
}

/// What a team sees of some blocks, given the address of each.
pub open spec fn shown_blocks(
    blocks: Seq<RbContentBlockAdminData>,
    unlocked: Seq<i32>,
    urls: Seq<Option<String>>,
) -> Seq<ShownBlock>
    decreases blocks.len(),
{
    if blocks.len() == 0 {
        Seq::empty()
    } else {
        let rest = shown_blocks(blocks.drop_last(), unlocked, urls);
        if is_visible(blocks.last(), unlocked) {
            rest.push(shown_block(blocks.last(), urls[blocks.len() - 1]))
        } else {
            rest
        }
    }
}

/// What a list of blocks shows.
pub open spec fn views(blocks: Seq<RbContentBlockShowData>) -> Seq<ShownBlock> {
    blocks.map_values(|b: RbContentBlockShowData| b.shown())
}

/// Whether the address of a block is to be looked up.
pub fn has_address(block: &RbContentBlockAdminData, content_cdn_enabled: bool) -> (r: bool)
    ensures
        r == (content_cdn_enabled && block.is_outside()),
{
    content_cdn_enabled && block.cdn_backend.is_some() && block.cdn_object_key.is_some()
        && block.cdn_relative_path.is_some()
}

/// What a team sees of some blocks, given the address of each.
pub fn visible_for_team(
    blocks: &Vec<RbContentBlockAdminData>,
    unlocked: &Vec<i32>,
    urls: &Vec<Option<String>>,
) -> (r: Vec<RbContentBlockShowData>)
    requires
        urls@.len() == blocks@.len(),
    ensures
        views(r@) == shown_blocks(blocks@, unlocked@, urls@),
{
    let mut visible: Vec<RbContentBlockShowData> = Vec::new();
    let mut i: usize = 0;
    assert(views(visible@) =~= shown_blocks(blocks@.take(0), unlocked@, urls@));
    while i < blocks.len()
        invariant
            i <= blocks@.len(),
            urls@.len() == blocks@.len(),
            views(visible@) == shown_blocks(blocks@.take(i as int), unlocked@, urls@),
        decreases blocks@.len() - i,
    {
        let block = &blocks[i];
        proof {
            assert(blocks@.take(i + 1).drop_last() =~= blocks@.take(i as int));
            assert(blocks@.take(i + 1).last() == *block);
        }
        if block.visibility_cond.is_none() || ids::contains(unlocked, block.id) {
            let ghost before = views(visible@);
            let content_url = match &urls[i] {
                Some(url) => Some(url.clone()),
                None => None,
            };
            let content = if content_url.is_some() {
                "".to_owned()
            } else {
                block.content.clone()
            };
            visible.push(
                RbContentBlockShowData {
                    id: block.id,
                    sort: block.sort,
                    content,
                    content_type: block.content_type.into(),
                    revision: revision(block.content_type, block.content.as_str()),
                    content_url,
                },
            );
            assert(views(visible@) =~= before.push(shown_block(*block, urls@[i as int])));
        }
        i += 1;
    }
    assert(blocks@.take(i as int) =~= blocks@);
    visible
}

/// A block with a condition that has not opened to a team is not shown to it.
pub proof fn hidden_blocks_stay_hidden(
    blocks: Seq<RbContentBlockAdminData>,
    unlocked: Seq<i32>,
    urls: Seq<Option<String>>,
    k: int,
)
    requires
        0 <= k < shown_blocks(blocks, unlocked, urls).len(),
    ensures
        exists|i: int|
            0 <= i < blocks.len() && (#[trigger] blocks[i]).id == shown_blocks(
                blocks,
                unlocked,
                urls,
            )[k].id && is_visible(blocks[i], unlocked),
    decreases blocks.len(),
{
    let rest = shown_blocks(blocks.drop_last(), unlocked, urls);
    let all = shown_blocks(blocks, unlocked, urls);
    if is_visible(blocks.last(), unlocked) && k == all.len() - 1 {
        assert(blocks[blocks.len() - 1].id == all[k].id);
    } else {
        assert(all[k] == rest[k]);
        hidden_blocks_stay_hidden(blocks.drop_last(), unlocked, urls, k);
        let i = choose|i: int|
            0 <= i < blocks.drop_last().len() && (#[trigger] blocks.drop_last()[i]).id == rest[k].id
                && is_visible(blocks.drop_last()[i], unlocked);
        assert(blocks[i] == blocks.drop_last()[i]);
    }
}

/// A first block has the place zero, and a new one the place behind the last.
pub proof fn places_grow_with_blocks(sorts: Seq<i32>, sort: i32)
    ensures
        next_sort(Seq::empty()) == 0,
        next_sort(sorts.push(sort)) > sort,
        sorts.len() > 0 ==> next_sort(sorts.push(sort)) >= next_sort(sorts),
        next_sort(sorts.push(sort)) == sort + 1 || (sorts.len() > 0 && next_sort(sorts.push(sort))
            == next_sort(sorts)),
{
    assert(sorts.push(sort).drop_last() =~= sorts);
}

/// A block holds what it was given outside, point by point, or nothing at all.
pub proof fn artifacts_are_held_in_full(
    block: RbContentBlockAdminData,
    artifact: ContentBlockArtifact,
)
    ensures
        holds_artifact(block, Some(artifact)) ==> block.cdn_backend is Some && block.cdn_backend->0@
            == artifact.backend@ && block.cdn_object_key is Some && block.cdn_object_key->0@
            == artifact.object_key@ && block.cdn_relative_path is Some && block.cdn_relative_path->0@
            == artifact.relative_path@ && block.cdn_sha256 is Some && block.cdn_sha256->0@
            == artifact.sha256@ && block.cdn_size == Some(artifact.size),
        holds_artifact(block, None) ==> block.cdn_backend is None && block.cdn_object_key is None
            && block.cdn_relative_path is None && block.cdn_sha256 is None && block.cdn_size is None,
        block.is_outside() <==> block.cdn_backend is Some && block.cdn_object_key is Some
            && block.cdn_relative_path is Some,
{
}

/// An update sets the name, the content and the condition, and what is held outside only where it says
/// so; what the block belongs to, its place and its number stay.
pub proof fn updates_set_what_they_hold(
    block: RbContentBlockAdminData,
    old_block: RbContentBlockAdminData,
    data: ContentBlockUpdate,
)
    requires
        updated_to(block, old_block, data),
    ensures
        block.id == old_block.id,
        block.puzzle_id == old_block.puzzle_id,
        block.round_id == old_block.round_id,
        block.sort == old_block.sort,
        block.ctime_at == old_block.ctime_at,
        block.name@ == data.name@,
        block.content@ == data.content@,
        block.content_type == data.content_type,
        block.visibility_cond is Some <==> data.visibility_cond is Some,
        block.visibility_cond is Some ==> block.visibility_cond->0@ == data.visibility_cond->0@,
        data.update_artifact && data.artifact is None ==> block.cdn_backend is None
            && block.cdn_object_key is None && block.cdn_relative_path is None && block.cdn_sha256
            is None && block.cdn_size is None,
        data.update_artifact && data.artifact is Some ==> block.cdn_size == Some(
            data.artifact->0.size,
        ) && block.cdn_backend is Some && block.cdn_backend->0@ == data.artifact->0.backend@
            && block.cdn_object_key is Some && block.cdn_object_key->0@ == data.artifact->0.object_key@
            && block.cdn_relative_path is Some && block.cdn_relative_path->0@
            == data.artifact->0.relative_path@ && block.cdn_sha256 is Some && block.cdn_sha256->0@
            == data.artifact->0.sha256@,
        !data.update_artifact ==> block.cdn_backend == old_block.cdn_backend && block.cdn_object_key
            == old_block.cdn_object_key && block.cdn_relative_path == old_block.cdn_relative_path
            && block.cdn_sha256 == old_block.cdn_sha256 && block.cdn_size == old_block.cdn_size,
{
}

/// Two blocks that differ in what they hold outside alone agree in all else.
pub proof fn blocks_agree_but_for_what_is_outside(
    block: RbContentBlockAdminData,
    old_block: RbContentBlockAdminData,
)
    requires
        same_but_artifact(block, old_block),
    ensures
        block.id == old_block.id,
        block.puzzle_id == old_block.puzzle_id,
        block.round_id == old_block.round_id,
        block.sort == old_block.sort,
        block.name@ == old_block.name@,
        block.content@ == old_block.content@,
        block.content_type == old_block.content_type,
        block.visibility_cond == old_block.visibility_cond,
        block.ctime_at == old_block.ctime_at,
{
}

/// A block is unlocked by exactly the teams of which that is stored, and clearing one takes out each of
/// its unlocks and no others.
pub proof fn unlocks_name_teams_and_blocks(
    unlocks: Seq<BlockUnlock>,
    unlock: BlockUnlock,
    id: i32,
    team_id: i32,
)
    ensures
        unlocked_by(unlocks, id).contains(team_id) <==> exists|i: int|
            0 <= i < unlocks.len() && (#[trigger] unlocks[i]).team_id == team_id
                && unlocks[i].content_block_id == id,
        without_block(Seq::empty(), id).len() == 0,
        unlock.content_block_id == id ==> without_block(unlocks.push(unlock), id) == without_block(
            unlocks,
            id,
        ),
        unlock.content_block_id != id ==> without_block(unlocks.push(unlock), id) == without_block(
            unlocks,
            id,
        ).push(unlock),
{
    assert(unlocks.push(unlock).drop_last() =~= unlocks);
    let named = BlockUnlock { team_id, content_block_id: id };
    if unlocks.contains(named) {
        let i = choose|i: int| 0 <= i < unlocks.len() && unlocks[i] == named;
        assert(unlocks[i].team_id == team_id);
    }
    if exists|i: int|
        0 <= i < unlocks.len() && (#[trigger] unlocks[i]).team_id == team_id
            && unlocks[i].content_block_id == id {
        let i = choose|i: int|
            0 <= i < unlocks.len() && (#[trigger] unlocks[i]).team_id == team_id
                && unlocks[i].content_block_id == id;
        assert(unlocks[i] == named);
    }
}

proof fn lemma_numbers(ids: Seq<i32>, n: u32)
    ensures
        numbers(ids).contains(n) <==> exists|i: int| 0 <= i < ids.len() && #[trigger] ids[i] == n,
    decreases ids.len(),
{
    if ids.len() > 0 {
        let init = ids.drop_last();
        lemma_numbers(init, n);
        assert(ids[ids.len() - 1] == ids.last());
        let before = numbers(init);
        let after = numbers(ids);
        if before.contains(n) {
            let i = choose|i: int| 0 <= i < init.len() && #[trigger] init[i] == n;
            assert(ids[i] == n);
            let k = choose|k: int| 0 <= k < before.len() && before[k] == n;
            assert(after[k] == n);
        }
        if ids.last() == n {
            assert(after[after.len() - 1] == n);
        }
        if exists|i: int| 0 <= i < ids.len() && #[trigger] ids[i] == n {
            let i = choose|i: int| 0 <= i < ids.len() && #[trigger] ids[i] == n;
            if i < init.len() {
                assert(init[i] == n);
            }
        }
        if after.contains(n) && !before.contains(n) {
            let k = choose|k: int| 0 <= k < after.len() && after[k] == n;
            if k < before.len() {
                assert(before[k] == n);
            }
        }
    }
}

/// What conditions of content ask of is what is stored of the team: a puzzle counts as solved exactly
/// where it is one of those that are solved, a trigger as fired exactly where it is one of those that
/// fired, and the game has started where that is so.
pub proof fn conditions_ask_of_what_is_stored(
    solved: Seq<i32>,
    rounds: Seq<RoundRow>,
    puzzles: Seq<PuzzleRow>,
    triggers: Seq<(i32, String)>,
    game_started: bool,
    id: u32,
    key: Seq<char>,
)
    ensures
        ({
            let m = content_progress(solved, rounds, puzzles, triggers, game_started);
            &&& m.solved.contains(id) <==> exists|i: int|
                0 <= i < solved.len() && #[trigger] solved[i] == id
            &&& m.triggered.contains((id, key)) <==> exists|i: int|
                0 <= i < triggers.len() && (#[trigger] triggers[i]).0 == id && triggers[i].1@ == key
            &&& m.game_started == game_started
        }),
{
    lemma_numbers(solved, id);
}

/// What a team's states tell is what they list.
pub proof fn states_tell_what_they_list(states: TeamContentStates, id: u32, key: Seq<char>)
    ensures
        states.progress().solved.contains(id) <==> states.solved@.contains(id),
        states.progress().triggered.contains((id, key)) <==> exists|i: int|
            0 <= i < states.triggers@.len() && (#[trigger] states.triggers@[i]).0 == id
                && states.triggers@[i].1@ == key,
        states.progress().game_started == states.game_started,
{
}

/// A block opens to a team exactly where it has a condition that can be read and holds; it is listed
/// once as opening where the team has not unlocked it yet.
pub proof fn blocks_open_where_their_condition_holds(
    blocks: Seq<BlockCondition>,
    block: BlockCondition,
    unlocked: Seq<i32>,
    m: Progress,
)
    ensures
        opening_blocks(Seq::empty(), unlocked, m).len() == 0,
        block.visibility_cond is None ==> !block_opens(block, m),
        block.visibility_cond matches Some(text) ==> (block_opens(block, m) <==> expr::gate_in(text@)
            is Ok && ast::holds(m, expr::gate_in(text@)->Ok_0)),
        ({
            let before = opening_blocks(blocks, unlocked, m);
            let after = opening_blocks(blocks.push(block), unlocked, m);
            &&& (exists|i: int| 0 <= i < unlocked.len() && unlocked[i] == block.id) ==> after
                == before
            &&& block.visibility_cond is None ==> after == before
            &&& block.visibility_cond is Some && expr::gate_in(block.visibility_cond->0@) is Err
                ==> after == before
            &&& block.visibility_cond is Some && expr::gate_in(block.visibility_cond->0@) is Ok
                && !ast::holds(m, expr::gate_in(block.visibility_cond->0@)->Ok_0) ==> after == before
            &&& block.visibility_cond is Some && expr::gate_in(block.visibility_cond->0@) is Ok
                && ast::holds(m, expr::gate_in(block.visibility_cond->0@)->Ok_0)
                && !unlocked.contains(block.id) ==> after == before.push(block.id)
        }),
{
    assert(blocks.push(block).drop_last() =~= blocks);
}

/// A block is shown to a team exactly where it has no condition or the team has unlocked it, with the
/// address that belongs to it; its text is shown only where it has no address.
pub proof fn visible_blocks_are_shown(
    blocks: Seq<RbContentBlockAdminData>,
    block: RbContentBlockAdminData,
    unlocked: Seq<i32>,
    urls: Seq<Option<String>>,
)
    ensures
        shown_blocks(Seq::empty(), unlocked, urls).len() == 0,
        ({
            let before = shown_blocks(blocks, unlocked, urls);
            let after = shown_blocks(blocks.push(block), unlocked, urls);
            let url = urls[blocks.len() as int];
            let visible = block.visibility_cond is None || exists|i: int|
                0 <= i < unlocked.len() && unlocked[i] == block.id;
            &&& !visible ==> after == before
            &&& visible ==> {
                &&& after.len() == before.len() + 1
                &&& after.drop_last() == before
                &&& after.last().id == block.id
                &&& after.last().sort == block.sort
                &&& url is Some ==> after.last().content.len() == 0 && after.last().content_url
                    == Some(url->0@)
                &&& url is None ==> after.last().content == block.content@ && after.last().content_url
                    is None
            }
        }),
{
    assert(blocks.push(block).drop_last() =~= blocks);
    reveal_strlit("");
    if is_visible(block, unlocked) {
        assert(shown_blocks(blocks.push(block), unlocked, urls).drop_last() =~= shown_blocks(
            blocks,
            unlocked,
            urls,
        ));
    }
}

/// What is shown of a block is what is told of it, one for one.
pub proof fn shown_blocks_are_told(blocks: Seq<RbContentBlockShowData>, i: int)
    requires
        0 <= i < blocks.len(),
    ensures
        views(blocks).len() == blocks.len(),
        views(blocks)[i].id == blocks[i].id,
        views(blocks)[i].sort == blocks[i].sort,
        views(blocks)[i].content == blocks[i].content@,
        views(blocks)[i].content_type == blocks[i].content_type,
        views(blocks)[i].revision == blocks[i].revision@,
        views(blocks)[i].content_url is Some <==> blocks[i].content_url is Some,
        blocks[i].content_url is Some ==> views(blocks)[i].content_url->0 == blocks[i].content_url->0@,
{
}

/// The bytes that a revision is taken of tell the type and the text apart: two blocks of which they
/// are the same have the same type and the same bytes of text.
pub proof fn revisions_tell_type_and_text(a: i16, b: i16, x: Seq<char>, y: Seq<char>)
    requires
        revision_bytes(a, x) == revision_bytes(b, y),
    ensures
        a == b,
        vstd::utf8::encode_utf8(x) == vstd::utf8::encode_utf8(y),
{
    let (p, q) = (revision_bytes(a, x), revision_bytes(b, y));
    assert(p[0] == low_high(a)[0] && p[1] == low_high(a)[1]);
    assert(q[0] == low_high(b)[0] && q[1] == low_high(b)[1]);
    assert(p.skip(2) =~= vstd::utf8::encode_utf8(x));
    assert(q.skip(2) =~= vstd::utf8::encode_utf8(y));
}

/// Conditions of content leave rows with negative numbers out and count the puzzle that opens a round
/// among the round's puzzles; names stand for the last row that has them.
pub proof fn openers_count_for_content(
    solved: Seq<i32>,
    rounds: Seq<RoundRow>,
    puzzles: Seq<PuzzleRow>,
    row: PuzzleRow,
    triggers: Seq<(i32, String)>,
    game_started: bool,
)
    ensures
        ({
            let before = content_progress(solved, rounds, puzzles, triggers, game_started);
            let after = content_progress(solved, rounds, puzzles.push(row), triggers, game_started);
            &&& row.id < 0 ==> after == before
            &&& row.id >= 0 && row.round_id >= 0 ==> after.round_puzzles.dom().contains(
                row.round_id as u32,
            ) && after.round_puzzles[row.round_id as u32].contains(row.id as u32)
            &&& row.id >= 0 && row.slug is Some ==> after.puzzle_slugs.dom().contains(row.slug->0@)
                && after.puzzle_slugs[row.slug->0@] == row.id
        }),
{
    assert(puzzles.push(row).drop_last() =~= puzzles);
    let after = content_progress(solved, rounds, puzzles.push(row), triggers, game_started);
    if row.id >= 0 && row.round_id >= 0 {
        let list = after.round_puzzles[row.round_id as u32];
        assert(list[list.len() - 1] == row.id as u32);
    }
}

} // verus!
