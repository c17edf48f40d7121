//! Documents that the code of puzzles stores, and how they are found again.
use vstd::prelude::*;

use crate::db::event_log;
use crate::db::event_log::page_size;
use crate::db::puzzle_backend;
use crate::db::puzzle_backend::{
    require_scope_in_game, store_doc_from_row, BackendScope, PuzzleStoreDoc, StoreDocRow,
};
use crate::error::RbInternalError;
use crate::text::same;

verus! {

/// A value by which a document is found. A number stands here by the bits of its one form: what
/// counts as the same number has the same bits.
#[derive(Debug)]
pub enum PuzzleStoreIndexValue {
    Text(String),
    Number(u64),
    Bool(bool),
}

/// A value by which a document is found, under its key.
#[derive(Debug)]
pub struct PuzzleStoreIndexEntry {
    pub key: String,
    pub value: PuzzleStoreIndexValue,
}

/// The columns in which a value by which a document is found is stored.
#[derive(Debug, PartialEq, Eq)]
pub struct IndexColumns {
    pub value_text: Option<String>,
    pub value_number: Option<u64>,
    pub value_bool: Option<bool>,
}

impl PuzzleStoreIndexValue {
    /// How the value is stored: in the column of its own sort.
    pub fn columns(self) -> (r: IndexColumns)
        ensures
            r == (match self {
                PuzzleStoreIndexValue::Text(text) => IndexColumns {
                    value_text: Some(text),
                    value_number: None,
                    value_bool: None,
                },
                PuzzleStoreIndexValue::Number(bits) => IndexColumns {
                    value_text: None,
                    value_number: Some(bits),
                    value_bool: None,
                },
                PuzzleStoreIndexValue::Bool(flag) => IndexColumns {
                    value_text: None,
                    value_number: None,
                    value_bool: Some(flag),
                },
            }),
    {
        match self {
            PuzzleStoreIndexValue::Text(text) => IndexColumns {
                value_text: Some(text),
                value_number: None,
                value_bool: None,
            },
            PuzzleStoreIndexValue::Number(bits) => IndexColumns {
                value_text: None,
                value_number: Some(bits),
                value_bool: None,
            },
            PuzzleStoreIndexValue::Bool(flag) => IndexColumns {
                value_text: None,
                value_number: None,
                value_bool: Some(flag),
            },
        }
    }
}

/// The values that documents are asked for by, under their keys.
#[derive(Debug)]
pub struct PuzzleStoreEqFilters {
    pub text: Vec<(String, String)>,
    pub number: Vec<(String, u64)>,
    pub bool_: Vec<(String, bool)>,
}

impl PuzzleStoreEqFilters {
    /// How many values there are.
    pub open spec fn count(self) -> nat {
        self.text@.len() + self.number@.len() + self.bool_@.len()
    }

    /// Whether a value is asked for under a key.
    pub open spec fn asks(self, key: Seq<char>, value: PuzzleStoreIndexValue) -> bool {
        match value {
            PuzzleStoreIndexValue::Text(text) => exists|i: int|
                0 <= i < self.text@.len() && (#[trigger] self.text@[i]).0@ == key
                    && self.text@[i].1@ == text@,
            PuzzleStoreIndexValue::Number(bits) => exists|i: int|
                0 <= i < self.number@.len() && (#[trigger] self.number@[i]).0@ == key
                    && self.number@[i].1 == bits,
            PuzzleStoreIndexValue::Bool(flag) => exists|i: int|
                0 <= i < self.bool_@.len() && (#[trigger] self.bool_@[i]).0@ == key
                    && self.bool_@[i].1 == flag,
        }
    }

    /// Nothing that documents are asked for by.
    pub fn empty() -> (r: Self)
        ensures
            r.count() == 0,
    {
        PuzzleStoreEqFilters { text: Vec::new(), number: Vec::new(), bool_: Vec::new() }
    }

    fn accepts(&self, entry: &PuzzleStoreIndexEntry) -> (r: bool)
        ensures
            r == self.asks(entry.key@, entry.value),
    {
        match &entry.value {
            PuzzleStoreIndexValue::Text(text) => {
                let mut i: usize = 0;
                while i < self.text.len()
                    invariant
                        i <= self.text@.len(),
                        entry.value matches PuzzleStoreIndexValue::Text(own) && own@ == text@,
                        forall|k: int|
                            0 <= k < i ==> !((#[trigger] self.text@[k]).0@ == entry.key@
                                && self.text@[k].1@ == text@),
                    decreases self.text@.len() - i,
                {
                    if same(self.text[i].0.as_str(), entry.key.as_str()) && same(
                        self.text[i].1.as_str(),
                        text.as_str(),
                    ) {
                        assert(self.text@[i as int].0@ == entry.key@);
                        return true;
                    }
                    i += 1;
                }
                false
            },
            PuzzleStoreIndexValue::Number(bits) => {
                let mut i: usize = 0;
                while i < self.number.len()
                    invariant
                        i <= self.number@.len(),
                        entry.value == PuzzleStoreIndexValue::Number(*bits),
                        forall|k: int|
                            0 <= k < i ==> !((#[trigger] self.number@[k]).0@ == entry.key@
                                && self.number@[k].1 == *bits),
                    decreases self.number@.len() - i,
                {
                    if same(self.number[i].0.as_str(), entry.key.as_str()) && self.number[i].1
                        == *bits {
                        assert(self.number@[i as int].0@ == entry.key@);
                        return true;
                    }
                    i += 1;
                }
                false
            },
            PuzzleStoreIndexValue::Bool(flag) => {
                let mut i: usize = 0;
                while i < self.bool_.len()
                    invariant
                        i <= self.bool_@.len(),
                        entry.value == PuzzleStoreIndexValue::Bool(*flag),
                        forall|k: int|
                            0 <= k < i ==> !((#[trigger] self.bool_@[k]).0@ == entry.key@
                                && self.bool_@[k].1 == *flag),
                    decreases self.bool_@.len() - i,
                {
                    if same(self.bool_[i].0.as_str(), entry.key.as_str()) && self.bool_[i].1
                        == *flag {
                        assert(self.bool_@[i as int].0@ == entry.key@);
                        return true;
                    }
                    i += 1;
                }
                false
            },
        }
    }
}

/// The keys under which a document has a value that is asked for, each once.
pub open spec fn found_keys(
    index: Seq<PuzzleStoreIndexEntry>,
    filters: PuzzleStoreEqFilters,
) -> Seq<Seq<char>>
    decreases index.len(),
{
    if index.len() == 0 {
        Seq::empty()
    } else {
        let rest = found_keys(index.drop_last(), filters);
        let entry = index.last();
        if filters.asks(entry.key@, entry.value) && !rest.contains(entry.key@) {
            rest.push(entry.key@)
        } else {
            rest
        }
    }
}

/// Whether a document has the values that are asked for: under as many keys as there are values.
pub open spec fn has_values(
    index: Seq<PuzzleStoreIndexEntry>,
    filters: PuzzleStoreEqFilters,
) -> bool {
    filters.count() == 0 || found_keys(index, filters).len() == filters.count()
}

/// The texts of some keys.
pub open spec fn key_texts(keys: Seq<&String>) -> Seq<Seq<char>> {
    keys.map_values(|key: &String| key@)
}

fn names_key(keys: &Vec<&String>, key: &String) -> (r: bool)
    ensures
        r == key_texts(keys@).contains(key@),
{
    let ghost texts = key_texts(keys@);
    let mut i: usize = 0;
    while i < keys.len()
        invariant
            i <= keys@.len(),
            texts == key_texts(keys@),
            forall|k: int| 0 <= k < i ==> #[trigger] texts[k] != key@,
        decreases keys@.len() - i,
    {
        if same(keys[i].as_str(), key.as_str()) {
            assert(texts[i as int] == key@);
            return true;
        }
        i += 1;
    }
    false
}

fn meets(index: &Vec<PuzzleStoreIndexEntry>, filters: &PuzzleStoreEqFilters) -> (r: bool)
    ensures
        r == has_values(index@, *filters),
{
    if filters.text.len() == 0 && filters.number.len() == 0 && filters.bool_.len() == 0 {
        return true;
    }
    let mut keys: Vec<&String> = Vec::new();
    let mut i: usize = 0;
    assert(key_texts(keys@) =~= found_keys(index@.take(0), *filters));
    while i < index.len()
        invariant
            i <= index@.len(),
            key_texts(keys@) == found_keys(index@.take(i as int), *filters),
        decreases index@.len() - i,
    {
        let entry = &index[i];
        proof {
            assert(index@.take(i + 1).drop_last() =~= index@.take(i as int));
            assert(index@.take(i + 1).last() == *entry);
        }
        if filters.accepts(entry) && !names_key(&keys, &entry.key) {
            let ghost before = keys@;
            keys.push(&entry.key);
            assert(key_texts(keys@) =~= key_texts(before).push(entry.key@));
        }
        i += 1;
    }
    assert(index@.take(i as int) =~= index@);
    assert(key_texts(keys@).len() == keys@.len());
    let wanted: u128 = filters.text.len() as u128 + filters.number.len() as u128
        + filters.bool_.len() as u128;
    keys.len() as u128 == wanted
}

/// A document that is asked for by one value under each of some keys is found where it has them
/// all.
pub proof fn documents_have_all_values(
    index: Seq<PuzzleStoreIndexEntry>,
    filters: PuzzleStoreEqFilters,
)
    ensures
        forall|i: int, j: int|
            0 <= i < j < found_keys(index, filters).len() ==> #[trigger] found_keys(
                index,
                filters,
            )[i] != #[trigger] found_keys(index, filters)[j],
        forall|key: Seq<char>|
            #[trigger] found_keys(index, filters).contains(key) <==> exists|i: int|
                0 <= i < index.len() && (#[trigger] index[i]).key@ == key && filters.asks(
                    key,
                    index[i].value,
                ),
    decreases index.len(),
{
    if index.len() > 0 {
        let before = index.drop_last();
        let entry = index.last();
        let rest = found_keys(before, filters);
        let all = found_keys(index, filters);
        documents_have_all_values(before, filters);
        assert forall|key: Seq<char>| #[trigger] all.contains(key) <==> exists|i: int|
            0 <= i < index.len() && (#[trigger] index[i]).key@ == key && filters.asks(
                key,
                index[i].value,
            ) by {
            if all.contains(key) {
                let k = choose|k: int| 0 <= k < all.len() && all[k] == key;
                if k < rest.len() {
                    assert(rest[k] == key);
                    assert(rest.contains(key));
                    let i = choose|i: int|
                        0 <= i < before.len() && (#[trigger] before[i]).key@ == key && filters.asks(
                            key,
                            before[i].value,
                        );
                    assert(index[i] == before[i]);
                } else {
                    assert(index[index.len() - 1] == entry);
                }
            }
            if exists|i: int|
                0 <= i < index.len() && (#[trigger] index[i]).key@ == key && filters.asks(
                    key,
                    index[i].value,
                ) {
                let i = choose|i: int|
                    0 <= i < index.len() && (#[trigger] index[i]).key@ == key && filters.asks(
                        key,
                        index[i].value,
                    );
                if i < before.len() {
                    assert(before[i] == index[i]);
                    assert(rest.contains(key));
                    let k = choose|k: int| 0 <= k < rest.len() && rest[k] == key;
                    assert(all[k] == key);
                } else if rest.contains(key) {
                    let k = choose|k: int| 0 <= k < rest.len() && rest[k] == key;
                    assert(all[k] == key);
                } else {
                    assert(all[rest.len() as int] == key);
                }
            }
        }
    }
}

/// How documents are listed.
#[derive(Debug)]
pub struct PuzzleStoreListOptions {
    pub filters: PuzzleStoreEqFilters,
    pub cursor: Option<i64>,
    pub limit: i64,
    pub descending: bool,
}

/// A document with the values by which it is found.
#[derive(Debug)]
pub struct StoredDoc {
    pub game_id: i32,
    pub row: StoreDocRow,
    pub index: Vec<PuzzleStoreIndexEntry>,
}

impl PuzzleStoreListOptions {
    /// Whether a number comes before another in the list.
    pub open spec fn before(self, a: i64, b: i64) -> bool {
        if self.descending {
            a > b
        } else {
            a < b
        }
    }

    /// Whether a document is listed: it is of the game, the scope and the collection, behind the
    /// cursor, and has the values that are asked for.
    pub open spec fn takes(
        self,
        doc: StoredDoc,
        game_id: i32,
        scope: BackendScope,
        collection: Seq<char>,
    ) -> bool {
        &&& doc.game_id == game_id
        &&& (doc.row.scope_type, doc.row.team_id, doc.row.puzzle_id) == scope.columns()
        &&& doc.row.collection@ == collection
        &&& self.cursor matches Some(cursor) ==> self.before(cursor, doc.row.id)
        &&& has_values(doc.index@, self.filters)
    }

    fn accepts(
        &self,
        doc: &StoredDoc,
        game_id: i32,
        scope: &BackendScope,
        collection: &str,
    ) -> (r: bool)
        ensures
            r == self.takes(*doc, game_id, *scope, collection@),
    {
        let (scope_type, team_id, puzzle_id) = scope.parts();
        if doc.game_id != game_id || doc.row.scope_type != scope_type || doc.row.team_id != team_id || doc.row.puzzle_id
            != puzzle_id || !same(doc.row.collection.as_str(), collection) {
            return false;
        }
        let behind = match self.cursor {
            Some(cursor) => if self.descending {
                cursor > doc.row.id
            } else {
                cursor < doc.row.id
            },
            None => true,
        };
        behind && meets(&doc.index, &self.filters)
    }
}

/// Where a document goes in a list: behind the last one that it does not come before.
pub open spec fn place(list: Seq<StoreDocRow>, id: i64, options: PuzzleStoreListOptions) -> int
    decreases list.len(),
{
    if list.len() == 0 {
        0
    } else if options.before(id, list.last().id) {
        place(list.drop_last(), id, options)
    } else {
        list.len() as int
    }
}

/// The documents that are asked for, in the order of their numbers.
pub open spec fn docs_listed(
    docs: Seq<StoredDoc>,
    game_id: i32,
    scope: BackendScope,
    collection: Seq<char>,
    options: PuzzleStoreListOptions,
) -> Seq<StoreDocRow>
    decreases docs.len(),
{
    if docs.len() == 0 {
        Seq::empty()
    } else {
        let list = docs_listed(docs.drop_last(), game_id, scope, collection, options);
        let doc = docs.last();
        if options.takes(doc, game_id, scope, collection) {
            list.insert(place(list, doc.row.id, options), doc.row)
        } else {
            list
        }
    }
}

fn find_place(list: &Vec<StoreDocRow>, id: i64, options: &PuzzleStoreListOptions) -> (r: usize)
    ensures
        r == place(list@, id, *options),
        r <= list@.len(),
{
    let mut i: usize = list.len();
    assert(list@.take(i as int) =~= list@);
    while i > 0
        invariant
            i <= list@.len(),
            place(list@, id, *options) == place(list@.take(i as int), id, *options),
        decreases i,
    {
        assert(list@.take(i as int).last() == list@[i - 1]);
        assert(list@.take(i as int).drop_last() =~= list@.take(i - 1));
        let comes_before = if options.descending {
            id > list[i - 1].id
        } else {
            id < list[i - 1].id
        };
        if !comes_before {
            return i;
        }
        i -= 1;
    }
    0
}

/// A page of documents: the first of the list behind the cursor, between 1 and 100 of them. The
/// scope must belong to the game.
pub fn list_store_docs(
    docs: Vec<StoredDoc>,
    game_id: i32,
    in_game: bool,
    scope: BackendScope,
    collection: &str,
    options: &PuzzleStoreListOptions,
) -> (r: Result<Vec<PuzzleStoreDoc>, RbInternalError>)
    ensures
        match r {
            Ok(shown) => {
                let list = docs_listed(docs@, game_id, scope, collection@, *options);
                let limit = event_log::page_limit(options.limit as int);
                &&& in_game
                &&& shown@.len() == (if list.len() <= limit {
                    list.len() as int
                } else {
                    limit
                })
                &&& forall|i: int|
                    0 <= i < shown@.len() ==> puzzle_backend::shows_doc(#[trigger] shown@[i], list[i])
            },
            Err(e) => !in_game && e.text() == "backend scope does not belong to current game"@,
        },
{
    if let Err(e) = require_scope_in_game(in_game) {
        return Err(e);
    }
    let ghost all = docs@;
    let mut list: Vec<StoreDocRow> = Vec::new();
    for doc in it: docs
        invariant
            it.seq() == all,
            list@ == docs_listed(all.take(it.index()), game_id, scope, collection@, *options),
    {
        proof {
            assert(all.take(it.index() + 1).drop_last() =~= all.take(it.index()));
            assert(all.take(it.index() + 1).last() == doc);
        }
        if options.accepts(&doc, game_id, &scope, collection) {
            let at = find_place(&list, doc.row.id, options);
            list.insert(at, doc.row);
        }
    }
    assert(all.take(all.len() as int) =~= all);
    let ghost found = list@;
    let limit: u64 = page_size(options.limit) as u64;
    let mut shown: Vec<PuzzleStoreDoc> = Vec::new();
    for row in it: list
        invariant
            it.seq() == found,
            limit == event_log::page_limit(options.limit as int),
            shown@.len() == (if it.index() <= limit {
                it.index()
            } else {
                limit as int
            }),
            forall|i: int|
                0 <= i < shown@.len() ==> puzzle_backend::shows_doc(#[trigger] shown@[i], found[i]),
    {
        assert(row == found[it.index()]);
        if (shown.len() as u64) < limit {
            shown.push(store_doc_from_row(row));
        }
    }
    Ok(shown)
}

/// Whether documents stand in the order of a list.
pub open spec fn in_doc_order(list: Seq<StoreDocRow>, options: PuzzleStoreListOptions) -> bool {
    forall|i: int, j: int|
        0 <= i < j < list.len() ==> !options.before((#[trigger] list[j]).id, (#[trigger] list[i]).id)
}

proof fn lemma_doc_place(list: Seq<StoreDocRow>, id: i64, options: PuzzleStoreListOptions)
    requires
        in_doc_order(list, options),
    ensures
        0 <= place(list, id, options) <= list.len(),
        forall|k: int|
            0 <= k < place(list, id, options) ==> !options.before(id, (#[trigger] list[k]).id),
        forall|k: int|
            place(list, id, options) <= k < list.len() ==> options.before(
                id,
                (#[trigger] list[k]).id,
            ),
    decreases list.len(),
{
    if list.len() > 0 {
        let rest = list.drop_last();
        assert forall|i: int, j: int| 0 <= i < j < rest.len() implies !options.before(
            (#[trigger] rest[j]).id,
            (#[trigger] rest[i]).id,
        ) by {
            assert(rest[i] == list[i] && rest[j] == list[j]);
        }
        lemma_doc_place(rest, id, options);
        let p = place(list, id, options);
        assert forall|k: int| p <= k < list.len() implies options.before(
            id,
            (#[trigger] list[k]).id,
        ) by {
            if k < rest.len() {
                assert(rest[k] == list[k]);
            }
        }
        assert forall|k: int| 0 <= k < p implies !options.before(id, (#[trigger] list[k]).id) by {
            if options.before(id, list.last().id) {
                assert(rest[k] == list[k]);
            } else if k < list.len() - 1 {
                assert(!options.before(list[list.len() - 1].id, list[k].id));
            }
        }
    }
}

/// A list of documents is in the order of their numbers, and holds the documents that are asked for
/// and no others.
pub proof fn documents_are_in_order(
    docs: Seq<StoredDoc>,
    game_id: i32,
    scope: BackendScope,
    collection: Seq<char>,
    options: PuzzleStoreListOptions,
)
    ensures
        in_doc_order(docs_listed(docs, game_id, scope, collection, options), options),
        forall|k: int|
            0 <= k < docs_listed(docs, game_id, scope, collection, options).len() ==> exists|i: int|
                0 <= i < docs.len() && options.takes(#[trigger] docs[i], game_id, scope, collection)
                    && docs[i].row == #[trigger] docs_listed(docs, game_id, scope, collection, options)[k],
        forall|i: int|
            0 <= i < docs.len() && options.takes(#[trigger] docs[i], game_id, scope, collection)
                ==> docs_listed(docs, game_id, scope, collection, options).contains(docs[i].row),
    decreases docs.len(),
{
    if docs.len() > 0 {
        let rest = docs.drop_last();
        let doc = docs.last();
        let before = docs_listed(rest, game_id, scope, collection, options);
        let list = docs_listed(docs, game_id, scope, collection, options);
        documents_are_in_order(rest, game_id, scope, collection, options);
        assert(docs[docs.len() - 1] == doc);
        lemma_doc_place(before, doc.row.id, options);
        let p = place(before, doc.row.id, options);
        let taken = options.takes(doc, game_id, scope, collection);
        assert forall|i: int, j: int| 0 <= i < j < list.len() implies !options.before(
            (#[trigger] list[j]).id,
            (#[trigger] list[i]).id,
        ) by {
            if !taken || j < p {
                assert(list[i] == before[i] && list[j] == before[j]);
            } else if i > p {
                assert(list[i] == before[i - 1] && list[j] == before[j - 1]);
            } else if j == p {
                assert(list[i] == before[i]);
            } else if i == p {
                assert(list[j] == before[j - 1]);
            } else {
                assert(list[i] == before[i] && list[j] == before[j - 1]);
            }
        }
        assert forall|k: int| 0 <= k < list.len() implies exists|i: int|
            0 <= i < docs.len() && options.takes(#[trigger] docs[i], game_id, scope, collection)
                && docs[i].row == #[trigger] list[k] by {
            if taken && k == p {
                assert(docs[docs.len() - 1].row == list[k]);
            } else {
                let old = if taken && k > p {
                    k - 1
                } else {
                    k
                };
                assert(list[k] == before[old]);
                let i = choose|i: int|
                    0 <= i < rest.len() && options.takes(#[trigger] rest[i], game_id, scope, collection)
                        && rest[i].row == before[old];
                assert(docs[i] == rest[i]);
            }
        }
        assert forall|i: int| 0 <= i < docs.len() && options.takes(
            #[trigger] docs[i],
            game_id,
            scope,
            collection,
        ) implies list.contains(docs[i].row) by {
            if i < rest.len() {
                assert(rest[i] == docs[i]);
                let k = choose|k: int| 0 <= k < before.len() && before[k] == rest[i].row;
                if taken && k >= p {
                    assert(list[k + 1] == before[k]);
                } else {
                    assert(list[k] == before[k]);
                }
            } else {
                assert(list[p] == doc.row);
            }
        }
    }
}

/// Whether each document has a number of its own.
pub open spec fn numbered(docs: Seq<StoredDoc>) -> bool {
    forall|i: int, j: int|
        0 <= i < j < docs.len() ==> (#[trigger] docs[i]).row.id != (#[trigger] docs[j]).row.id
}

/// Whether documents stand in the order of a list, no two at one place.
pub open spec fn strictly_listed(list: Seq<StoreDocRow>, options: PuzzleStoreListOptions) -> bool {
    forall|i: int, j: int|
        0 <= i < j < list.len() ==> options.before((#[trigger] list[i]).id, (#[trigger] list[j]).id)
}

proof fn lemma_numbers_stay(
    docs: Seq<StoredDoc>,
    game_id: i32,
    scope: BackendScope,
    collection: Seq<char>,
    options: PuzzleStoreListOptions,
)
    requires
        numbered(docs),
    ensures
        strictly_listed(docs_listed(docs, game_id, scope, collection, options), options),
    decreases docs.len(),
{
    documents_are_in_order(docs, game_id, scope, collection, options);
    if docs.len() > 0 {
        let rest = docs.drop_last();
        let doc = docs.last();
        let before = docs_listed(rest, game_id, scope, collection, options);
        let list = docs_listed(docs, game_id, scope, collection, options);
        assert(docs[docs.len() - 1] == doc);
        assert(numbered(rest)) by {
            assert forall|i: int, j: int| 0 <= i < j < rest.len() implies (#[trigger] rest[i]).row.id
                != (#[trigger] rest[j]).row.id by {
                assert(rest[i] == docs[i] && rest[j] == docs[j]);
            }
        }
        lemma_numbers_stay(rest, game_id, scope, collection, options);
        documents_are_in_order(rest, game_id, scope, collection, options);
        lemma_doc_place(before, doc.row.id, options);
        let p = place(before, doc.row.id, options);
        let taken = options.takes(doc, game_id, scope, collection);
        assert forall|k: int| 0 <= k < before.len() implies (#[trigger] before[k]).id
            != doc.row.id by {
            let i = choose|i: int|
                0 <= i < rest.len() && options.takes(#[trigger] rest[i], game_id, scope, collection)
                    && rest[i].row == before[k];
            assert(docs[i] == rest[i]);
        }
        assert forall|i: int, j: int| 0 <= i < j < list.len() implies options.before(
            (#[trigger] list[i]).id,
            (#[trigger] list[j]).id,
        ) by {
            if !taken || j < p {
                assert(list[i] == before[i] && list[j] == before[j]);
            } else if i > p {
                assert(list[i] == before[i - 1] && list[j] == before[j - 1]);
            } else if j == p {
                assert(list[i] == before[i]);
            } else if i == p {
                assert(list[j] == before[j - 1]);
            } else {
                assert(list[i] == before[i] && list[j] == before[j - 1]);
            }
        }
    }
}

proof fn lemma_same_list(
    a: Seq<StoreDocRow>,
    b: Seq<StoreDocRow>,
    options: PuzzleStoreListOptions,
)
    requires
        strictly_listed(a, options),
        strictly_listed(b, options),
        forall|row: StoreDocRow| #[trigger] a.contains(row) <==> b.contains(row),
    ensures
        a == b,
    decreases a.len(),
{
    if a.len() == 0 {
        if b.len() > 0 {
            assert(b.contains(b[0]));
            assert(a.contains(b[0]));
        }
        assert(a =~= b);
    } else {
        let x = a.last();
        assert(a[a.len() - 1] == x);
        assert(a.contains(x));
        let k = choose|k: int| 0 <= k < b.len() && b[k] == x;
        let y = b.last();
        assert(b[b.len() - 1] == y);
        assert(b.contains(y));
        assert(a.contains(y));
        let m = choose|m: int| 0 <= m < a.len() && a[m] == y;
        if k < b.len() - 1 {
            assert(options.before(b[k].id, b[b.len() - 1].id));
            if m < a.len() - 1 {
                assert(options.before(a[m].id, a[a.len() - 1].id));
            }
        }
        assert(x == y);
        let c = a.drop_last();
        let d = b.drop_last();
        assert forall|i: int, j: int| 0 <= i < j < c.len() implies options.before(
            (#[trigger] c[i]).id,
            (#[trigger] c[j]).id,
        ) by {
            assert(c[i] == a[i] && c[j] == a[j]);
        }
        assert forall|i: int, j: int| 0 <= i < j < d.len() implies options.before(
            (#[trigger] d[i]).id,
            (#[trigger] d[j]).id,
        ) by {
            assert(d[i] == b[i] && d[j] == b[j]);
        }
        assert forall|row: StoreDocRow| #[trigger] c.contains(row) <==> d.contains(row) by {
            if c.contains(row) {
                let i = choose|i: int| 0 <= i < c.len() && c[i] == row;
                assert(a[i] == row);
                assert(a.contains(row));
                assert(options.before(a[i].id, a[a.len() - 1].id));
                let j = choose|j: int| 0 <= j < b.len() && b[j] == row;
                assert(j < b.len() - 1);
                assert(d[j] == row);
            }
            if d.contains(row) {
                let i = choose|i: int| 0 <= i < d.len() && d[i] == row;
                assert(b[i] == row);
                assert(b.contains(row));
                assert(options.before(b[i].id, b[b.len() - 1].id));
                assert(a.contains(row));
                let j = choose|j: int| 0 <= j < a.len() && a[j] == row;
                assert(j < a.len() - 1);
                assert(c[j] == row);
            }
        }
        lemma_same_list(c, d, options);
        assert(a =~= c.push(x));
        assert(b =~= d.push(y));
    }
}

/// Pages join: behind the last document of a page the list goes on where the page ended.
pub proof fn pages_of_documents_join(
    docs: Seq<StoredDoc>,
    game_id: i32,
    scope: BackendScope,
    collection: Seq<char>,
    options: PuzzleStoreListOptions,
    shown: int,
)
    requires
        numbered(docs),
        0 < shown <= docs_listed(docs, game_id, scope, collection, options).len(),
    ensures
        docs_listed(
            docs,
            game_id,
            scope,
            collection,
            PuzzleStoreListOptions {
                cursor: Some(docs_listed(docs, game_id, scope, collection, options)[shown - 1].id),
                ..options
            },
        ) == docs_listed(docs, game_id, scope, collection, options).skip(shown),
{
    let list = docs_listed(docs, game_id, scope, collection, options);
    let last = list[shown - 1];
    let next = PuzzleStoreListOptions { cursor: Some(last.id), ..options };
    let more = docs_listed(docs, game_id, scope, collection, next);
    let left = list.skip(shown);
    lemma_numbers_stay(docs, game_id, scope, collection, options);
    lemma_numbers_stay(docs, game_id, scope, collection, next);
    documents_are_in_order(docs, game_id, scope, collection, options);
    documents_are_in_order(docs, game_id, scope, collection, next);
    assert(strictly_listed(left, options)) by {
        assert forall|i: int, j: int| 0 <= i < j < left.len() implies options.before(
            (#[trigger] left[i]).id,
            (#[trigger] left[j]).id,
        ) by {
            assert(left[i] == list[i + shown] && left[j] == list[j + shown]);
        }
    }
    assert(strictly_listed(more, options)) by {
        assert forall|i: int, j: int| 0 <= i < j < more.len() implies options.before(
            (#[trigger] more[i]).id,
            (#[trigger] more[j]).id,
        ) by {
            assert(next.before(more[i].id, more[j].id));
        }
    }
    assert forall|row: StoreDocRow| #[trigger] more.contains(row) <==> left.contains(row) by {
        if more.contains(row) {
            let k = choose|k: int| 0 <= k < more.len() && more[k] == row;
            let i = choose|i: int|
                0 <= i < docs.len() && next.takes(#[trigger] docs[i], game_id, scope, collection)
                    && docs[i].row == more[k];
            let first = choose|first: int|
                0 <= first < docs.len() && options.takes(#[trigger] docs[first], game_id, scope, collection)
                    && docs[first].row == list[shown - 1];
            assert(options.before(last.id, docs[i].row.id));
            assert(options.takes(docs[i], game_id, scope, collection));
            let j = choose|j: int| 0 <= j < list.len() && list[j] == row;
            if j < shown - 1 {
                assert(options.before(list[j].id, list[shown - 1].id));
            }
            assert(j >= shown);
            assert(left[j - shown] == row);
        }
        if left.contains(row) {
            let j = choose|j: int| 0 <= j < left.len() && left[j] == row;
            assert(list[j + shown] == row);
            assert(options.before(list[shown - 1].id, list[j + shown].id));
            let i = choose|i: int|
                0 <= i < docs.len() && options.takes(#[trigger] docs[i], game_id, scope, collection)
                    && docs[i].row == list[j + shown];
            assert(next.takes(docs[i], game_id, scope, collection));
            assert(more.contains(docs[i].row));
        }
    }
    lemma_same_list(more, left, options);
}

/// A key is found in the index exactly where some entry of it has a value that is asked for: a text,
/// a number or a truth value, each of its own sort.
pub proof fn filters_ask_for_values(
    filters: PuzzleStoreEqFilters,
    key: Seq<char>,
    text: String,
    bits: u64,
    flag: bool,
)
    ensures
        filters.asks(key, PuzzleStoreIndexValue::Text(text)) <==> exists|i: int|
            0 <= i < filters.text@.len() && (#[trigger] filters.text@[i]).0@ == key
                && filters.text@[i].1@ == text@,
        filters.asks(key, PuzzleStoreIndexValue::Number(bits)) <==> exists|i: int|
            0 <= i < filters.number@.len() && (#[trigger] filters.number@[i]).0@ == key
                && filters.number@[i].1 == bits,
        filters.asks(key, PuzzleStoreIndexValue::Bool(flag)) <==> exists|i: int|
            0 <= i < filters.bool_@.len() && (#[trigger] filters.bool_@[i]).0@ == key
                && filters.bool_@[i].1 == flag,
        filters.count() == filters.text@.len() + filters.number@.len() + filters.bool_@.len(),
{
}

/// Documents meet filters that ask for nothing, and others only where as many keys are found as are
/// asked for.
pub proof fn every_filter_is_met(
    index: Seq<PuzzleStoreIndexEntry>,
    entry: PuzzleStoreIndexEntry,
    filters: PuzzleStoreEqFilters,
)
    ensures
        filters.text@.len() + filters.number@.len() + filters.bool_@.len() == 0 ==> has_values(
            index,
            filters,
        ),
        filters.text@.len() + filters.number@.len() + filters.bool_@.len() > 0 ==> (has_values(
            index,
            filters,
        ) <==> found_keys(index, filters).len() == filters.text@.len() + filters.number@.len()
            + filters.bool_@.len()),
        found_keys(Seq::empty(), filters).len() == 0,
        filters.asks(entry.key@, entry.value) && !found_keys(index, filters).contains(entry.key@)
            ==> found_keys(index.push(entry), filters) == found_keys(index, filters).push(entry.key@),
        !filters.asks(entry.key@, entry.value) || found_keys(index, filters).contains(entry.key@)
            ==> found_keys(index.push(entry), filters) == found_keys(index, filters),
{
    assert(index.push(entry).drop_last() =~= index);
}

/// A document is listed exactly where it is of the game, the scope and the collection that are asked
/// for, lies behind where the page starts, and has the values that are asked for.
pub proof fn documents_are_listed_where_they_belong(
    options: PuzzleStoreListOptions,
    doc: StoredDoc,
    game_id: i32,
    scope: BackendScope,
    collection: Seq<char>,
)
    ensures
        options.takes(doc, game_id, scope, collection) <==> {
            &&& doc.game_id == game_id
            &&& doc.row.scope_type == scope.columns().0
            &&& doc.row.team_id == scope.columns().1
            &&& doc.row.puzzle_id == scope.columns().2
            &&& doc.row.collection@ == collection
            &&& options.cursor is None || (options.descending && doc.row.id < options.cursor->0) || (
            !options.descending && doc.row.id > options.cursor->0)
            &&& has_values(doc.index@, options.filters)
        },
{
}

/// Documents are listed by their numbers, rising or falling as asked for.
pub proof fn documents_rise_or_fall(
    docs: Seq<StoredDoc>,
    game_id: i32,
    scope: BackendScope,
    collection: Seq<char>,
    options: PuzzleStoreListOptions,
    i: int,
    j: int,
)
    requires
        0 <= i < j < docs_listed(docs, game_id, scope, collection, options).len(),
    ensures
        ({
            let list = docs_listed(docs, game_id, scope, collection, options);
            &&& options.descending ==> list[i].id >= list[j].id
            &&& !options.descending ==> list[i].id <= list[j].id
        }),
{
    documents_are_in_order(docs, game_id, scope, collection, options);
    let list = docs_listed(docs, game_id, scope, collection, options);
    assert(!options.before(list[j].id, list[i].id));
}

/// Each document that is asked for is listed once.
pub proof fn each_document_is_listed_once(
    docs: Seq<StoredDoc>,
    doc: StoredDoc,
    game_id: i32,
    scope: BackendScope,
    collection: Seq<char>,
    options: PuzzleStoreListOptions,
)
    ensures
        docs_listed(Seq::empty(), game_id, scope, collection, options).len() == 0,
        options.takes(doc, game_id, scope, collection) ==> docs_listed(
            docs.push(doc),
            game_id,
            scope,
            collection,
            options,
        ).len() == docs_listed(docs, game_id, scope, collection, options).len() + 1,
        !options.takes(doc, game_id, scope, collection) ==> docs_listed(
            docs.push(doc),
            game_id,
            scope,
            collection,
            options,
        ) == docs_listed(docs, game_id, scope, collection, options),
{
    assert(docs.push(doc).drop_last() =~= docs);
    documents_are_in_order(docs, game_id, scope, collection, options);
    lemma_doc_place(docs_listed(docs, game_id, scope, collection, options), doc.row.id, options);
}

} // verus!
