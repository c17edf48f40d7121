//! Files that were uploaded, in groups.
use vstd::prelude::*;

use crate::clock::Timestamp;
use crate::text::same;

verus! {

#[derive(Debug)]
pub struct RbAssetGroupAdminData {
    pub id: i32,
    pub game_id: i32,
    pub puzzle_id: Option<i32>,
    pub round_id: Option<i32>,
    pub backend: String,
    pub object_key: String,
    pub original_name: String,
    pub mime_type: String,
    pub size: i64,
    pub sha256: String,
    pub ctime_at: Timestamp,
}

#[derive(Debug)]
pub struct RbAssetFileAdminData {
    pub id: i32,
    pub group_id: i32,
    pub relative_path: String,
    pub mime_type: String,
    pub size: i64,
    pub sha256: String,
    pub ctime_at: Timestamp,
}

/// A file as the backend of a puzzle reads it.
#[derive(Debug)]
pub struct RbAssetReadableFile {
    pub group_id: i32,
    pub object_key: String,
    pub original_name: String,
    pub relative_path: String,
    pub mime_type: String,
    pub size: i64,
    pub sha256: String,
}

#[derive(Debug)]
pub struct RbAssetGroupWithFilesAdminData {
    pub group: RbAssetGroupAdminData,
    pub files: Vec<RbAssetFileAdminData>,
}

/// A group to store.
#[derive(Debug, Clone, Copy)]
pub struct CreateAssetGroupData<'a> {
    pub game_id: i32,
    pub puzzle_id: Option<i32>,
    pub round_id: Option<i32>,
    pub backend: &'a str,
    pub object_key: &'a str,
    pub original_name: &'a str,
    pub mime_type: &'a str,
    pub size: i64,
    pub sha256: &'a str,
}

/// Whose files are meant.
#[derive(Debug, Clone, Copy, PartialEq, Eq, Structural)]
pub enum AssetScope {
    Puzzle(i32),
    Round(i32),
    Game,
}

impl AssetScope {
    /// Whether files with these owners are meant.
    pub open spec fn covers(self, puzzle_id: Option<i32>, round_id: Option<i32>) -> bool {
        match self {
            AssetScope::Puzzle(id) => puzzle_id == Some(id) && round_id is None,
            AssetScope::Round(id) => round_id == Some(id) && puzzle_id is None,
            AssetScope::Game => puzzle_id is None && round_id is None,
        }
    }
}

/// Whose files are asked for: those of the puzzle, if one is named, else those of the round, if one
/// is named, else those of the game.
pub fn list_by_scope(puzzle_id: Option<i32>, round_id: Option<i32>) -> (r: AssetScope)
    ensures
        r == (match puzzle_id {
            Some(id) => AssetScope::Puzzle(id),
            None => match round_id {
                Some(id) => AssetScope::Round(id),
                None => AssetScope::Game,
            },
        }),
{
    match puzzle_id {
        Some(id) => AssetScope::Puzzle(id),
        None => match round_id {
            Some(id) => AssetScope::Round(id),
            None => AssetScope::Game,
        },
    }
}

/// Files belong to one scope only.
pub proof fn scopes_are_disjoint(
    a: AssetScope,
    b: AssetScope,
    puzzle_id: Option<i32>,
    round_id: Option<i32>,
)
    requires
        a.covers(puzzle_id, round_id),
        b.covers(puzzle_id, round_id),
    ensures
        a == b,
{
}

/// Whether the backend of a puzzle reads files with these owners: its own, and those of its game.
pub open spec fn readable_for(
    game_id: i32,
    puzzle_id: i32,
    owner_game: i32,
    owner_puzzle: Option<i32>,
    owner_round: Option<i32>,
) -> bool {
    owner_game == game_id && (AssetScope::Puzzle(puzzle_id).covers(owner_puzzle, owner_round)
        || AssetScope::Game.covers(owner_puzzle, owner_round))
}

/// A file with the owners of its group.
#[derive(Debug)]
pub struct OwnedFile {
    pub game_id: i32,
    pub puzzle_id: Option<i32>,
    pub round_id: Option<i32>,
    pub file: RbAssetReadableFile,
}

impl OwnedFile {
    /// Whether the backend of a puzzle reads the file under a key.
    pub open spec fn is_read(self, game_id: i32, puzzle_id: i32, object_key: Seq<char>) -> bool {
        &&& self.file.object_key@ == object_key
        &&& readable_for(game_id, puzzle_id, self.game_id, self.puzzle_id, self.round_id)
    }
}

/// What the backend of a puzzle reads under a key, in the order of the files.
pub open spec fn read_files(
    files: Seq<OwnedFile>,
    game_id: i32,
    puzzle_id: i32,
    object_key: Seq<char>,
) -> Seq<RbAssetReadableFile>
    decreases files.len(),
{
    if files.len() == 0 {
        Seq::empty()
    } else {
        let rest = read_files(files.drop_first(), game_id, puzzle_id, object_key);
        if files[0].is_read(game_id, puzzle_id, object_key) {
            seq![files[0].file] + rest
        } else {
            rest
        }
    }
}

fn reads(row: &OwnedFile, game_id: i32, puzzle_id: i32, object_key: &str) -> (r: bool)
    ensures
        r == row.is_read(game_id, puzzle_id, object_key@),
{
    if !same(&row.file.object_key, object_key) || row.game_id != game_id || row.round_id.is_some() {
        return false;
    }
    match row.puzzle_id {
        Some(id) => id == puzzle_id,
        None => true,
    }
}

/// The files that the backend of a puzzle reads under a key.
pub fn list_readable_files_by_object_key(
    files: Vec<OwnedFile>,
    game_id: i32,
    puzzle_id: i32,
    object_key: &str,
) -> (r: Vec<RbAssetReadableFile>)
    ensures
        r@ == read_files(files@, game_id, puzzle_id, object_key@),
{
    let ghost all = files@;
    let mut read: Vec<RbAssetReadableFile> = Vec::new();
    assert(all.skip(0) =~= all);
    for row in it: files
        invariant
            it.seq() == all,
            read@ + read_files(all.skip(it.index()), game_id, puzzle_id, object_key@)
                == read_files(all, game_id, puzzle_id, object_key@),
    {
        let ghost left = all.skip(it.index());
        let ghost before = read@;
        assert(left[0] == row);
        assert(left.drop_first() =~= all.skip(it.index() + 1));
        if reads(&row, game_id, puzzle_id, object_key) {
            read.push(row.file);
            assert(read@ + read_files(left.drop_first(), game_id, puzzle_id, object_key@) =~= before
                + read_files(left, game_id, puzzle_id, object_key@));
        }
    }
    assert(all.skip(all.len() as int) =~= Seq::empty());
    assert(read@ + Seq::empty() =~= read@);
    read
}

/// The first of files that stands at a path.
pub open spec fn file_at(files: Seq<RbAssetReadableFile>, relative_path: Seq<char>) -> Option<
    RbAssetReadableFile,
>
    decreases files.len(),
{
    if files.len() == 0 {
        None
    } else if files[0].relative_path@ == relative_path {
        Some(files[0])
    } else {
        file_at(files.drop_first(), relative_path)
    }
}

/// The file that the backend of a puzzle reads under a key at a path.
pub fn get_readable_file_by_object_key(
    files: Vec<OwnedFile>,
    game_id: i32,
    puzzle_id: i32,
    object_key: &str,
    relative_path: &str,
) -> (r: Option<RbAssetReadableFile>)
    ensures
        r == file_at(read_files(files@, game_id, puzzle_id, object_key@), relative_path@),
{
    let read = list_readable_files_by_object_key(files, game_id, puzzle_id, object_key);
    let ghost all = read@;
    assert(all.skip(0) =~= all);
    for file in it: read
        invariant
            it.seq() == all,
            all == read_files(files@, game_id, puzzle_id, object_key@),
            file_at(all.skip(it.index()), relative_path@) == file_at(all, relative_path@),
    {
        let ghost left = all.skip(it.index());
        assert(left[0] == file);
        assert(left.drop_first() =~= all.skip(it.index() + 1));
        if same(&file.relative_path, relative_path) {
            return Some(file);
        }
    }
    assert(all.skip(all.len() as int) =~= Seq::empty());
    None
}

/// The backend of a puzzle reads no file of another game, of another puzzle or of a round: whatever
/// is read is of the puzzle, or of its game as a whole.
pub proof fn foreign_files_are_not_read(
    files: Seq<OwnedFile>,
    game_id: i32,
    puzzle_id: i32,
    object_key: Seq<char>,
    i: int,
)
    requires
        0 <= i < read_files(files, game_id, puzzle_id, object_key).len(),
    ensures
        exists|k: int|
            0 <= k < files.len() && (#[trigger] files[k]).file == read_files(
                files,
                game_id,
                puzzle_id,
                object_key,
            )[i] && files[k].file.object_key@ == object_key && files[k].game_id == game_id
                && files[k].round_id is None && (files[k].puzzle_id is None || files[k].puzzle_id
                == Some(puzzle_id)),
    decreases files.len(),
{
    let read = read_files(files, game_id, puzzle_id, object_key);
    let rest = files.drop_first();
    if files[0].is_read(game_id, puzzle_id, object_key) {
        if i == 0 {
            assert(files[0].file == read[0]);
        } else {
            foreign_files_are_not_read(rest, game_id, puzzle_id, object_key, i - 1);
            let k = choose|k: int|
                0 <= k < rest.len() && (#[trigger] rest[k]).file == read_files(
                    rest,
                    game_id,
                    puzzle_id,
                    object_key,
                )[i - 1] && rest[k].file.object_key@ == object_key && rest[k].game_id == game_id
                    && rest[k].round_id is None && (rest[k].puzzle_id is None || rest[k].puzzle_id
                    == Some(puzzle_id));
            assert(files[k + 1] == rest[k]);
        }
    } else {
        foreign_files_are_not_read(rest, game_id, puzzle_id, object_key, i);
        let k = choose|k: int|
            0 <= k < rest.len() && (#[trigger] rest[k]).file == read[i]
                && rest[k].file.object_key@ == object_key && rest[k].game_id == game_id
                && rest[k].round_id is None && (rest[k].puzzle_id is None || rest[k].puzzle_id
                == Some(puzzle_id));
        assert(files[k + 1] == rest[k]);
    }
}

/// Whatever is listed can be read at its path.
pub proof fn listed_files_are_found(files: Seq<RbAssetReadableFile>, i: int)
    requires
        0 <= i < files.len(),
    ensures
        file_at(files, files[i].relative_path@) matches Some(file) && file.relative_path@
            == files[i].relative_path@,
    decreases files.len(),
{
    if files[0].relative_path@ != files[i].relative_path@ {
        assert(files.drop_first()[i - 1] == files[i]);
        listed_files_are_found(files.drop_first(), i - 1);
    }
}

/// A puzzle reads the files of its game that belong to it or to the game itself, and none of other
/// puzzles, rounds or games.
pub proof fn puzzles_read_their_own_files(
    game_id: i32,
    puzzle_id: i32,
    owner_game: i32,
    owner_puzzle: Option<i32>,
    owner_round: Option<i32>,
)
    ensures
        readable_for(game_id, puzzle_id, owner_game, owner_puzzle, owner_round) <==> owner_game
            == game_id && owner_round is None && (owner_puzzle is None || owner_puzzle == Some(
            puzzle_id,
        )),
        AssetScope::Round(puzzle_id).covers(owner_puzzle, owner_round) <==> owner_puzzle is None
            && owner_round == Some(puzzle_id),
        AssetScope::Puzzle(puzzle_id).covers(owner_puzzle, owner_round) <==> owner_round is None
            && owner_puzzle == Some(puzzle_id),
        AssetScope::Game.covers(owner_puzzle, owner_round) <==> owner_round is None && owner_puzzle
            is None,
{
}

/// The files of an object are read in their order, each that a puzzle may read and no others.
pub proof fn files_of_an_object_are_read(
    owned: OwnedFile,
    files: Seq<OwnedFile>,
    game_id: i32,
    puzzle_id: i32,
    object_key: Seq<char>,
)
    ensures
        read_files(Seq::empty(), game_id, puzzle_id, object_key).len() == 0,
        ({
            let rest = read_files(files, game_id, puzzle_id, object_key);
            let all = read_files(seq![owned] + files, game_id, puzzle_id, object_key);
            let reads = owned.file.object_key@ == object_key && owned.game_id == game_id
                && owned.round_id is None && (owned.puzzle_id is None || owned.puzzle_id == Some(
                puzzle_id,
            ));
            &&& reads ==> all == seq![owned.file] + rest
            &&& !reads ==> all == rest
        }),
{
    assert((seq![owned] + files).drop_first() =~= files);
}

/// A file is found by its path: the first that has it, and none where none has.
pub proof fn files_are_found_by_path(
    first: RbAssetReadableFile,
    files: Seq<RbAssetReadableFile>,
    path: Seq<char>,
)
    ensures
        file_at(Seq::empty(), path) is None,
        first.relative_path@ == path ==> file_at(seq![first] + files, path) == Some(first),
        first.relative_path@ != path ==> file_at(seq![first] + files, path) == file_at(files, path),
{
    assert((seq![first] + files).drop_first() =~= files);
}

} // verus!
