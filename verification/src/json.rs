//! JSON values.
use vstd::prelude::*;

use crate::text::same;

verus! {

/// A JSON number: an integer of 64 bits, or the text of one that is none.
#[derive(Debug)]
pub enum JsonNumber {
    PosInt(u64),
    NegInt(i64),
    Float(String),
}

/// A JSON value. The keys of an object are all different.
#[derive(Debug)]
pub enum Json {
    Null,
    Bool(bool),
    Number(JsonNumber),
    Text(String),
    Array(Vec<Json>),
    Object(Vec<(String, Json)>),
}

/// What a [`JsonNumber`] says.
pub enum JNumber {
    Int(int),
    Float(Seq<char>),
}

/// What a [`Json`] value says.
pub enum J {
    Null,
    Bool(bool),
    Number(JNumber),
    Text(Seq<char>),
    Array(Seq<J>),
    Object(Map<Seq<char>, J>),
}

impl View for JsonNumber {
    type V = JNumber;

    open spec fn view(&self) -> JNumber {
        match self {
            JsonNumber::PosInt(n) => JNumber::Int(*n as int),
            JsonNumber::NegInt(n) => JNumber::Int(*n as int),
            JsonNumber::Float(s) => JNumber::Float(s@),
        }
    }
}

pub open spec fn json_view(v: Json) -> J
    decreases v,
{
    match v {
        Json::Null => J::Null,
        Json::Bool(b) => J::Bool(b),
        Json::Number(n) => J::Number(n@),
        Json::Text(s) => J::Text(s@),
        Json::Array(items) => J::Array(array_view(items@)),
        Json::Object(entries) => J::Object(object_view(entries@)),
    }
}

pub open spec fn array_view(items: Seq<Json>) -> Seq<J>
    decreases items,
{
    if items.len() == 0 {
        Seq::empty()
    } else {
        array_view(items.drop_last()).push(json_view(items.last()))
    }
}

pub open spec fn object_view(entries: Seq<(String, Json)>) -> Map<Seq<char>, J>
    decreases entries,
{
    if entries.len() == 0 {
        Map::empty()
    } else {
        object_view(entries.drop_last()).insert(entries.last().0@, json_view(entries.last().1))
    }
}

impl View for Json {
    type V = J;

    open spec fn view(&self) -> J {
        json_view(*self)
    }
}

pub open spec fn distinct_keys(entries: Seq<(String, Json)>) -> bool {
    forall|i: int, j: int|
        0 <= i < j < entries.len() ==> (#[trigger] entries[i]).0@ != (#[trigger] entries[j]).0@
}

/// Whether the keys of every object in a value are all different.
pub open spec fn json_wf(v: Json) -> bool
    decreases v,
{
    match v {
        Json::Array(items) => forall|i: int|
            0 <= i < items@.len() ==> json_wf(#[trigger] items@[i]),
        Json::Object(entries) => distinct_keys(entries@) && forall|i: int|
            0 <= i < entries@.len() ==> json_wf((#[trigger] entries@[i]).1),
        _ => true,
    }
}

impl Json {
    pub open spec fn wf(self) -> bool {
        json_wf(self)
    }
}

pub proof fn lemma_object_view(entries: Seq<(String, Json)>)
    ensures
        forall|k: Seq<char>| #[trigger]
            object_view(entries).dom().contains(k) <==> exists|i: int|
                0 <= i < entries.len() && (#[trigger] entries[i]).0@ == k,
        distinct_keys(entries) ==> forall|i: int|
            0 <= i < entries.len() ==> object_view(entries)[(#[trigger] entries[i]).0@]
                == entries[i].1@,
    decreases entries.len(),
{
    if entries.len() > 0 {
        let init = entries.drop_last();
        lemma_object_view(init);
        assert forall|k: Seq<char>| #[trigger]
            object_view(entries).dom().contains(k) <==> exists|i: int|
                0 <= i < entries.len() && (#[trigger] entries[i]).0@ == k by {
            if object_view(entries).dom().contains(k) {
                if k == entries.last().0@ {
                    assert(entries[entries.len() - 1].0@ == k);
                } else {
                    assert(object_view(init).dom().contains(k));
                    let i = choose|i: int| 0 <= i < init.len() && (#[trigger] init[i]).0@ == k;
                    assert(entries[i].0@ == k);
                }
            }
            if exists|i: int| 0 <= i < entries.len() && (#[trigger] entries[i]).0@ == k {
                let i = choose|i: int| 0 <= i < entries.len() && (#[trigger] entries[i]).0@ == k;
                if i < init.len() {
                    assert(init[i].0@ == k);
                    assert(object_view(init).dom().contains(k));
                }
            }
        }
        if distinct_keys(entries) {
            assert(distinct_keys(init));
            assert forall|i: int| 0 <= i < entries.len() implies object_view(
                entries,
            )[(#[trigger] entries[i]).0@] == entries[i].1@ by {
                if i < init.len() {
                    assert(init[i] == entries[i]);
                    assert(entries[i].0@ != entries[entries.len() - 1].0@);
                }
            }
        }
    }
}

/// A value after a patch: objects are merged key by key, a null in the patch removes its key, and
/// anything else is replaced.
pub open spec fn merged(base: J, patch: J) -> J
    decreases patch,
{
    match (base, patch) {
        (J::Object(b), J::Object(p)) => J::Object(
            Map::new(
                |k: Seq<char>|
                    if p.dom().contains(k) {
                        !(p[k] is Null)
                    } else {
                        b.dom().contains(k)
                    },
                |k: Seq<char>|
                    if p.dom().contains(k) {
                        merged(
                            if b.dom().contains(k) {
                                b[k]
                            } else {
                                J::Null
                            },
                            p[k],
                        )
                    } else {
                        b[k]
                    },
            ),
        ),
        _ => patch,
    }
}


proof fn lemma_object_remove(entries: Seq<(String, Json)>, at: int)
    requires
        distinct_keys(entries),
        0 <= at < entries.len(),
    ensures
        distinct_keys(entries.remove(at)),
        object_view(entries.remove(at)) == object_view(entries).remove(entries[at].0@),
{
    let rest = entries.remove(at);
    let key = entries[at].0@;
    assert forall|i: int, j: int| 0 <= i < j < rest.len() implies (#[trigger] rest[i]).0@ != (
    #[trigger] rest[j]).0@ by {
        let i1 = if i < at {
            i
        } else {
            i + 1
        };
        let j1 = if j < at {
            j
        } else {
            j + 1
        };
        assert(rest[i] == entries[i1] && rest[j] == entries[j1]);
    }
    lemma_object_view(entries);
    lemma_object_view(rest);
    let m = object_view(entries);
    let n = object_view(rest);
    assert forall|k: Seq<char>| n.dom().contains(k) == m.remove(key).dom().contains(k) by {
        if n.dom().contains(k) {
            let i = choose|i: int| 0 <= i < rest.len() && (#[trigger] rest[i]).0@ == k;
            let i1 = if i < at {
                i
            } else {
                i + 1
            };
            assert(rest[i] == entries[i1]);
            assert(m.dom().contains(k));
            assert(k != key);
        }
        if m.remove(key).dom().contains(k) {
            assert(m.dom().contains(k));
            let i = choose|i: int| 0 <= i < entries.len() && (#[trigger] entries[i]).0@ == k;
            let i1 = if i < at {
                i
            } else {
                i - 1
            };
            assert(rest[i1] == entries[i]);
        }
    }
    assert forall|k: Seq<char>| n.dom().contains(k) implies #[trigger] n[k] == m.remove(key)[k] by {
        let i = choose|i: int| 0 <= i < rest.len() && (#[trigger] rest[i]).0@ == k;
        let i1 = if i < at {
            i
        } else {
            i + 1
        };
        assert(rest[i] == entries[i1]);
        assert(m[entries[i1].0@] == entries[i1].1@);
    }
    assert(n =~= m.remove(key));
}

/// The place of a key among an object's entries.
fn position(entries: &Vec<(String, Json)>, key: &str) -> (r: Option<usize>)
    ensures
        match r {
            Some(i) => i < entries@.len() && entries@[i as int].0@ == key@,
            None => forall|i: int|
                0 <= i < entries@.len() ==> (#[trigger] entries@[i]).0@ != key@,
        },
{
    let mut i: usize = 0;
    while i < entries.len()
        invariant
            i <= entries@.len(),
            forall|k: int| 0 <= k < i ==> (#[trigger] entries@[k]).0@ != key@,
        decreases entries@.len() - i,
    {
        if same(entries[i].0.as_str(), key) {
            return Some(i);
        }
        i += 1;
    }
    None
}

impl Json {
    /// Applies a patch to a value.
    pub fn merge_patch(base: Json, patch: Json) -> (r: Json)
        requires
            base.wf(),
            patch.wf(),
        ensures
            r.wf(),
            r@ == merged(base@, patch@),
        decreases patch,
    {
        let ghost whole = patch;
        match (base, patch) {
            (Json::Object(entries), Json::Object(changes)) => {
                let ghost b0 = object_view(entries@);
                let ghost pe = changes@;
                let mut base = entries;
                proof {
                    assert(pe.take(0) =~= Seq::<(String, Json)>::empty());
                    assert(merged(J::Object(b0), J::Object(object_view(pe.take(0))))->Object_0 =~= b0);
                }
                for entry in it: changes
                    invariant
                        it.seq() == pe,
                        whole == patch,
                        whole == Json::Object(changes),
                        pe == changes@,
                        json_wf(whole),
                        distinct_keys(pe),
                        Json::Object(base).wf(),
                        J::Object(object_view(base@)) == merged(
                            J::Object(b0),
                            J::Object(object_view(pe.take(it.index()))),
                        ),
                {
                    let ghost i = it.index();
                    let ghost prefix = pe.take(i);
                    let ghost old_base = base@;
                    let ghost m = object_view(base@);
                    let ghost pm = object_view(prefix);
                    proof {
                        assert(pe.take(i + 1).drop_last() == prefix);
                        assert(pe.take(i + 1).last() == entry);
                        assert(whole->Object_0@[i] == entry);
                        lemma_object_view(prefix);
                        lemma_object_view(base@);
                        assert(!pm.dom().contains(entry.0@)) by {
                            if pm.dom().contains(entry.0@) {
                                let k = choose|k: int|
                                    0 <= k < prefix.len() && (#[trigger] prefix[k]).0@ == entry.0@;
                                assert(pe[k].0@ != pe[i].0@);
                            }
                        }
                    }
                    let (key, value) = entry;
                    let at = position(&base, key.as_str());
                    let ghost had = b0.dom().contains(key@);
                    proof {
                        assert(had == m.dom().contains(key@));
                        if let Some(k) = at {
                            assert(base@[k as int].0@ == key@);
                            lemma_object_remove(base@, k as int);
                        }
                    }
                    let previous = match at {
                        Some(k) => {
                            let removed = base.remove(k);
                            proof {
                                assert forall|j: int| 0 <= j < base@.len() implies json_wf(
                                    (#[trigger] base@[j]).1,
                                ) by {
                                    let j1 = if j < k {
                                        j
                                    } else {
                                        j + 1
                                    };
                                    assert(base@[j] == old_base[j1]);
                                }
                            }
                            removed.1
                        },
                        None => Json::Null,
                    };
                    proof {
                        if at is None {
                            assert(!m.dom().contains(key@));
                            assert(m.remove(key@) =~= m);
                        }
                    }
                    let ghost cleared = base@;
                    assert(object_view(cleared) == m.remove(key@));
                    let ghost next = pm.insert(key@, value@);
                    let ghost want = merged(J::Object(b0), J::Object(next));
                    if let Json::Null = value {
                        assert(want->Object_0 =~= m.remove(key@));
                    } else {
                        let ghost patch_value = value@;
                        let ghost base_value = if had {
                            b0[key@]
                        } else {
                            J::Null
                        };
                        assert(previous@ == base_value);
                        assert(decreases_to!(whole => whole->Object_0@[i].1));
                        let combined = Json::merge_patch(previous, value);
                        let ghost pair = (key, combined);
                        base.push((key, combined));
                        proof {
                            assert(base@.drop_last() == cleared);
                            lemma_object_view(cleared);
                            assert(!object_view(cleared).dom().contains(pair.0@));
                            assert forall|x: int, y: int| 0 <= x < y < base@.len() implies (
                            #[trigger] base@[x]).0@ != (#[trigger] base@[y]).0@ by {
                                if y < cleared.len() {
                                    assert(cleared[x] == base@[x] && cleared[y] == base@[y]);
                                } else {
                                    assert(cleared[x] == base@[x]);
                                }
                            }
                            assert forall|j: int| 0 <= j < base@.len() implies json_wf(
                                (#[trigger] base@[j]).1,
                            ) by {
                                if j < cleared.len() {
                                    assert(cleared[j] == base@[j]);
                                }
                            }
                            assert(want->Object_0 =~= m.remove(pair.0@).insert(
                                pair.0@,
                                merged(base_value, patch_value),
                            ));
                        }
                    }
                    assert(J::Object(object_view(base@)) == want);
                }
                assert(pe.take(pe.len() as int) == pe);
                Json::Object(base)
            },
            (_, patch) => patch,
        }
    }
}


impl Json {
    /// Whether the value is null.
    pub fn is_null(&self) -> (r: bool)
        ensures
            r == (self@ is Null),
    {
        matches!(self, Json::Null)
    }

    /// Whether the value is an object.
    pub fn is_object(&self) -> (r: bool)
        ensures
            r == (self@ is Object),
    {
        matches!(self, Json::Object(_))
    }

    /// The integer of 64 bits that the value is, if it is one.
    pub fn as_i64(&self) -> (r: Option<i64>)
        ensures
            r == integer_of(self@),
    {
        match self {
            Json::Number(JsonNumber::PosInt(n)) => {
                if *n <= i64::MAX as u64 {
                    Some(*n as i64)
                } else {
                    None
                }
            },
            Json::Number(JsonNumber::NegInt(n)) => Some(*n),
            _ => None,
        }
    }
}

pub open spec fn integer_of(v: J) -> Option<i64> {
    match v {
        J::Number(JNumber::Int(n)) => if i64::MIN <= n <= i64::MAX {
            Some(n as i64)
        } else {
            None
        },
        _ => None,
    }
}

/// Whether a value holds no null where a patch would look for one.
pub open spec fn null_free(v: J) -> bool
    decreases v,
{
    match v {
        J::Null => false,
        J::Object(m) => forall|k: Seq<char>| #[trigger] m.dom().contains(k) ==> null_free(m[k]),
        _ => true,
    }
}

proof fn lemma_merge_self(patch: J)
    requires
        null_free(patch),
    ensures
        merged(patch, patch) == patch,
    decreases patch,
{
    if let J::Object(p) = patch {
        let r = merged(patch, patch)->Object_0;
        assert forall|k: Seq<char>| #[trigger] p.dom().contains(k) implies null_free(p[k]) && merged(
            p[k],
            p[k],
        ) == p[k] by {
            assert(patch->Object_0.dom().contains(k));
            lemma_merge_self(p[k]);
        }
        assert(r =~= p);
    }
}

/// A patch that removes nothing can be applied again without effect.
pub proof fn patching_twice_is_patching_once(base: J, patch: J)
    requires
        null_free(patch),
    ensures
        merged(merged(base, patch), patch) == merged(base, patch),
    decreases patch,
{
    match (base, patch) {
        (J::Object(b), J::Object(p)) => {
            let once = merged(base, patch)->Object_0;
            let twice = merged(merged(base, patch), patch)->Object_0;
            assert forall|k: Seq<char>| #[trigger] p.dom().contains(k) implies twice[k]
                == once[k] && once.dom().contains(k) && twice.dom().contains(k) by {
                assert(patch->Object_0.dom().contains(k));
                assert(null_free(p[k]));
                assert(!(p[k] is Null));
                patching_twice_is_patching_once(
                    if b.dom().contains(k) {
                        b[k]
                    } else {
                        J::Null
                    },
                    p[k],
                );
            }
            assert(twice =~= once);
        },
        _ => {
            lemma_merge_self(patch);
        },
    }
}

/// A null in a patch removes its key, and keys that the patch does not name stay as they were.
pub proof fn patches_touch_only_their_keys(
    base: Map<Seq<char>, J>,
    patch: Map<Seq<char>, J>,
    key: Seq<char>,
)
    ensures
        merged(J::Object(base), J::Object(patch)) matches J::Object(r) && {
            &&& patch.dom().contains(key) && patch[key] is Null ==> !r.dom().contains(key)
            &&& !patch.dom().contains(key) ==> r.dom().contains(key) == base.dom().contains(key)
            &&& !patch.dom().contains(key) && base.dom().contains(key) ==> r[key] == base[key]
        },
{
}

/// The entries of an object once a key is set, or taken away where there is no value for it.
pub open spec fn with_key(
    entries: Map<Seq<char>, J>,
    key: Seq<char>,
    value: Option<J>,
) -> Map<Seq<char>, J> {
    match value {
        Some(value) => entries.insert(key, value),
        None => entries.remove(key),
    }
}

/// What an optional value is.
pub open spec fn opt_view(value: Option<Json>) -> Option<J> {
    match value {
        Some(v) => Some(v@),
        None => None,
    }
}

impl Json {
    /// Sets a key of an object, or takes it away where there is no value for it.
    pub fn set_key(self, key: &str, value: Option<Json>) -> (r: Json)
        requires
            self.wf(),
            self@ is Object,
            value matches Some(v) ==> v.wf(),
        ensures
            r.wf(),
            r@ == J::Object(with_key(self@->Object_0, key@, opt_view(value))),
    {
        let ghost whole = self;
        match self {
            Json::Object(entries) => {
                let mut rest = entries;
                let ghost before = rest@;
                assert(whole == Json::Object(rest));
                assert(json_wf(whole));
                proof {
                    lemma_object_view(before);
                }
                match position(&rest, key) {
                    Some(i) => {
                        proof {
                            lemma_object_remove(before, i as int);
                        }
                        rest.remove(i);
                        assert forall|k: int| 0 <= k < rest@.len() implies json_wf(
                            (#[trigger] rest@[k]).1,
                        ) by {
                            let k1 = if k < i {
                                k
                            } else {
                                k + 1
                            };
                            assert(rest@[k] == before[k1]);
                        }
                    },
                    None => {
                        assert(!object_view(before).dom().contains(key@));
                        assert(object_view(before) =~= object_view(before).remove(key@));
                    },
                }
                let ghost cleared = rest@;
                proof {
                    lemma_object_view(cleared);
                    assert(object_view(cleared) == object_view(before).remove(key@));
                    assert(!object_view(cleared).dom().contains(key@));
                }
                match value {
                    Some(v) => {
                        let ghost last = v@;
                        rest.push((key.to_owned(), v));
                        proof {
                            assert(rest@.drop_last() =~= cleared);
                            assert(object_view(rest@) == object_view(cleared).insert(key@, last));
                            assert(object_view(rest@) =~= object_view(before).insert(key@, last));
                            assert forall|i: int, j: int| 0 <= i < j < rest@.len() implies (
                            #[trigger] rest@[i]).0@ != (#[trigger] rest@[j]).0@ by {
                                assert(rest@[i] == cleared[i]);
                                if j < cleared.len() {
                                    assert(rest@[j] == cleared[j]);
                                } else {
                                    assert(object_view(cleared).dom().contains(cleared[i].0@));
                                }
                            }
                        }
                        Json::Object(rest)
                    },
                    None => Json::Object(rest),
                }
            },
            other => other,
        }
    }
}

/// The entries of an object that is written as a list of keys and values.
pub open spec fn pairs_map(pairs: Seq<(Seq<char>, J)>) -> Map<Seq<char>, J>
    decreases pairs.len(),
{
    if pairs.len() == 0 {
        Map::empty()
    } else {
        pairs_map(pairs.drop_last()).insert(pairs.last().0, pairs.last().1)
    }
}

/// The object that is written as a list of keys and values.
pub open spec fn object_of(pairs: Seq<(Seq<char>, J)>) -> J {
    J::Object(pairs_map(pairs))
}

pub open spec fn int_json(n: int) -> J {
    J::Number(JNumber::Int(n))
}

/// An integer, or null.
pub open spec fn opt_id_json(n: Option<i32>) -> J {
    match n {
        Some(n) => int_json(n as int),
        None => J::Null,
    }
}

/// An integer, or null.
pub open spec fn opt_int_json(n: Option<i64>) -> J {
    match n {
        Some(n) => int_json(n as int),
        None => J::Null,
    }
}

/// What an optional text says.
pub open spec fn str_view(s: Option<&str>) -> Option<Seq<char>> {
    match s {
        Some(s) => Some(s@),
        None => None,
    }
}

/// A text, or null.
pub open spec fn opt_text_json(s: Option<Seq<char>>) -> J {
    match s {
        Some(s) => J::Text(s),
        None => J::Null,
    }
}

impl Json {
    pub fn integer(n: i64) -> (r: Json)
        ensures
            r@ == int_json(n as int),
    {
        if n >= 0 {
            Json::Number(JsonNumber::PosInt(n as u64))
        } else {
            Json::Number(JsonNumber::NegInt(n))
        }
    }

    pub fn opt_id(n: Option<i32>) -> (r: Json)
        ensures
            r@ == opt_id_json(n),
    {
        match n {
            Some(n) => Json::integer(n as i64),
            None => Json::Null,
        }
    }

    pub fn opt_int(n: Option<i64>) -> (r: Json)
        ensures
            r@ == opt_int_json(n),
    {
        match n {
            Some(n) => Json::integer(n),
            None => Json::Null,
        }
    }

    pub fn text(s: &str) -> (r: Json)
        ensures
            r@ == J::Text(s@),
    {
        Json::Text(s.to_owned())
    }

    pub fn opt_text(s: Option<&str>) -> (r: Json)
        ensures
            r@ == opt_text_json(str_view(s)),
    {
        match s {
            Some(s) => Json::Text(s.to_owned()),
            None => Json::Null,
        }
    }
}

/// An object that is being written.
pub struct Fields {
    pub entries: Vec<(String, Json)>,
}

impl Fields {
    pub open spec fn pairs(self) -> Seq<(Seq<char>, J)> {
        Seq::new(self.entries@.len(), |i: int| (self.entries@[i].0@, self.entries@[i].1@))
    }

    pub fn new() -> (r: Fields)
        ensures
            r.pairs() == Seq::<(Seq<char>, J)>::empty(),
    {
        let r = Fields { entries: Vec::new() };
        assert(r.pairs() =~= Seq::<(Seq<char>, J)>::empty());
        r
    }

    /// Writes one more entry.
    pub fn put(self, key: &str, value: Json) -> (r: Fields)
        ensures
            r.pairs() == self.pairs().push((key@, value@)),
    {
        let ghost before = self.pairs();
        let ghost pair = (key@, value@);
        let mut entries = self.entries;
        entries.push((key.to_owned(), value));
        let r = Fields { entries };
        assert(r.pairs() =~= before.push(pair));
        r
    }

    /// The object.
    pub fn object(self) -> (r: Json)
        ensures
            r == Json::Object(self.entries),
            r@ == object_of(self.pairs()),
    {
        proof {
            lemma_pairs(self.entries@, self.pairs());
        }
        Json::Object(self.entries)
    }
}

proof fn lemma_pairs(entries: Seq<(String, Json)>, pairs: Seq<(Seq<char>, J)>)
    requires
        pairs.len() == entries.len(),
        forall|i: int|
            0 <= i < pairs.len() ==> #[trigger] pairs[i] == (entries[i].0@, entries[i].1@),
    ensures
        object_view(entries) == pairs_map(pairs),
    decreases entries.len(),
{
    if entries.len() > 0 {
        assert forall|i: int| 0 <= i < pairs.drop_last().len() implies #[trigger] pairs.drop_last()[i]
            == (entries.drop_last()[i].0@, entries.drop_last()[i].1@) by {
            assert(pairs.drop_last()[i] == pairs[i]);
        }
        lemma_pairs(entries.drop_last(), pairs.drop_last());
        assert(pairs[pairs.len() - 1] == (entries.last().0@, entries.last().1@));
    }
}

/// An object that is put together holds exactly the keys that it was given, each with the value that
/// it was given last.
pub proof fn objects_hold_what_they_are_given(pairs: Seq<(Seq<char>, J)>, key: Seq<char>, value: J)
    ensures
        object_of(Seq::empty()) == J::Object(Map::empty()),
        object_of(pairs.push((key, value))) is Object,
        ({
            let before = object_of(pairs)->Object_0;
            let after = object_of(pairs.push((key, value)))->Object_0;
            &&& after.dom().contains(key)
            &&& after[key] == value
            &&& forall|other: Seq<char>|
                other != key ==> (#[trigger] after.dom().contains(other) <==> before.dom().contains(
                    other,
                ))
            &&& forall|other: Seq<char>|
                other != key && before.dom().contains(other) ==> #[trigger] after[other]
                    == before[other]
        }),
{
    assert(pairs.push((key, value)).drop_last() =~= pairs);
    assert(pairs.push((key, value)).last() == (key, value));
}

/// Numbers and texts that may be missing are null where they are.
pub proof fn missing_values_are_null(n: i64, id: i32, s: Seq<char>)
    ensures
        opt_int_json(None) == J::Null,
        opt_int_json(Some(n)) == J::Number(JNumber::Int(n as int)),
        opt_id_json(None) == J::Null,
        opt_id_json(Some(id)) == J::Number(JNumber::Int(id as int)),
        opt_text_json(None) == J::Null,
        opt_text_json(Some(s)) == J::Text(s),
        int_json(n as int) == J::Number(JNumber::Int(n as int)),
        opt_view(None) is None,
        str_view(None) is None,
{
}

/// Only whole numbers of 64 bits are read as such, and what is written as one is read as it was.
pub proof fn whole_numbers_are_read(n: int, v: J)
    ensures
        i64::MIN <= n <= i64::MAX ==> integer_of(int_json(n)) is Some && integer_of(int_json(n))->0
            == n,
        n < i64::MIN || n > i64::MAX ==> integer_of(int_json(n)) is None,
        integer_of(v) matches Some(k) ==> v == int_json(k as int),
{
}

/// A key is set to a value or taken out, and the other keys stay as they are.
pub proof fn keys_are_set_or_taken_out(
    entries: Map<Seq<char>, J>,
    key: Seq<char>,
    other: Seq<char>,
    value: J,
)
    ensures
        with_key(entries, key, Some(value)).dom().contains(key),
        with_key(entries, key, Some(value))[key] == value,
        !with_key(entries, key, None).dom().contains(key),
        other != key ==> with_key(entries, key, Some(value)).dom().contains(other)
            == entries.dom().contains(other) && with_key(entries, key, None).dom().contains(other)
            == entries.dom().contains(other),
        other != key && entries.dom().contains(other) ==> with_key(entries, key, Some(value))[other]
            == entries[other] && with_key(entries, key, None)[other] == entries[other],
{
}

/// What a patch does to a key that it names with a value other than null: a value that is no object
/// replaces what was there, and an object changes the object that was there.
pub proof fn patches_set_their_keys(
    base: Map<Seq<char>, J>,
    patch: Map<Seq<char>, J>,
    key: Seq<char>,
)
    requires
        patch.dom().contains(key),
        patch[key] != J::Null,
    ensures
        merged(J::Object(base), J::Object(patch)) matches J::Object(r) && {
            &&& r.dom().contains(key)
            &&& !(patch[key] is Object) ==> r[key] == patch[key]
            &&& base.dom().contains(key) ==> r[key] == merged(base[key], patch[key])
            &&& !base.dom().contains(key) ==> r[key] == patch[key]
        },
        !(merged(J::Object(base), J::Null) is Object),
        merged(J::Null, J::Object(patch)) == J::Object(patch),
{
    reveal_with_fuel(merged, 2);
}

/// A value tells the same of each of its parts that the parts tell of themselves.
pub proof fn values_tell_of_their_parts(
    items: Seq<Json>,
    item: Json,
    entries: Seq<(String, Json)>,
    key: String,
    text: String,
    b: bool,
    n: u64,
)
    ensures
        Json::Null@ == J::Null,
        Json::Bool(b)@ == J::Bool(b),
        Json::Text(text)@ == J::Text(text@),
        Json::Number(JsonNumber::PosInt(n))@ == J::Number(JNumber::Int(n as int)),
        array_view(Seq::empty()).len() == 0,
        array_view(items.push(item)) == array_view(items).push(item@),
        object_view(Seq::empty()).dom() == Set::<Seq<char>>::empty(),
        object_view(entries.push((key, item))).dom().contains(key@),
        object_view(entries.push((key, item)))[key@] == item@,
{
    assert(items.push(item).drop_last() =~= items);
    assert(entries.push((key, item)).drop_last() =~= entries);
    assert(object_view(Seq::empty()).dom() =~= Set::<Seq<char>>::empty());
}

/// An object whose keys are named once holds each key with its value, and no other key.
pub proof fn keys_hold_their_values(pairs: Seq<(Seq<char>, J)>, i: int)
    requires
        0 <= i < pairs.len(),
        forall|a: int, b: int|
            0 <= a < b < pairs.len() ==> (#[trigger] pairs[a]).0 != (#[trigger] pairs[b]).0,
    ensures
        object_of(pairs) is Object,
        object_of(pairs)->Object_0.dom().contains(pairs[i].0),
        object_of(pairs)->Object_0[pairs[i].0] == pairs[i].1,
    decreases pairs.len(),
{
    let init = pairs.drop_last();
    if i < init.len() {
        assert forall|a: int, b: int| 0 <= a < b < init.len() implies (#[trigger] init[a]).0 != (
        #[trigger] init[b]).0 by {
            assert(pairs[a].0 != pairs[b].0);
        }
        keys_hold_their_values(init, i);
        assert(pairs[i].0 != pairs[pairs.len() - 1].0);
    }
}

/// A value is in order exactly where no object in it names a key twice.
pub proof fn values_in_order_name_keys_once(
    items: Vec<Json>,
    entries: Vec<(String, Json)>,
    i: int,
    j: int,
    b: bool,
    text: String,
)
    ensures
        Json::Null.wf(),
        Json::Bool(b).wf(),
        Json::Text(text).wf(),
        0 <= i < items@.len() && !items@[i].wf() ==> !Json::Array(items).wf(),
        (forall|k: int| 0 <= k < items@.len() ==> (#[trigger] items@[k]).wf()) ==> Json::Array(
            items,
        ).wf(),
        0 <= i < entries@.len() && !entries@[i].1.wf() ==> !Json::Object(entries).wf(),
        0 <= i < j < entries@.len() && entries@[i].0@ == entries@[j].0@ ==> !Json::Object(
            entries,
        ).wf(),
{
    if 0 <= i < items@.len() && json_wf(Json::Array(items)) {
        assert(Json::Array(items)->Array_0@[i] == items@[i]);
        assert(json_wf(items@[i]));
    }
    if 0 <= i < entries@.len() && json_wf(Json::Object(entries)) {
        assert(Json::Object(entries)->Object_0@[i] == entries@[i]);
        assert(json_wf(entries@[i].1));
    }
    if forall|k: int| 0 <= k < items@.len() ==> (#[trigger] items@[k]).wf() {
        assert forall|k: int| 0 <= k < items@.len() implies json_wf(#[trigger] items@[k]) by {
            assert(items@[k].wf());
        }
    }
}

} // verus!
