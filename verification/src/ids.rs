//! Lists of ids.
use vstd::prelude::*;

verus! {

/// Whether ids stand in ascending order, none of them twice.
pub open spec fn ascending(ids: Seq<i32>) -> bool {
    forall|i: int, j: int| 0 <= i < j < ids.len() ==> #[trigger] ids[i] < #[trigger] ids[j]
}

pub open spec fn distinct(ids: Seq<i32>) -> bool {
    forall|i: int, j: int| 0 <= i < j < ids.len() ==> #[trigger] ids[i] != #[trigger] ids[j]
}

/// Whether a list holds an id.
pub fn contains(ids: &Vec<i32>, id: i32) -> (r: bool)
    ensures
        r == ids@.contains(id),
{
    let mut i: usize = 0;
    while i < ids.len()
        invariant
            i <= ids@.len(),
            forall|k: int| 0 <= k < i ==> #[trigger] ids@[k] != id,
        decreases ids@.len() - i,
    {
        if ids[i] == id {
            assert(ids@[i as int] == id);
            return true;
        }
        i += 1;
    }
    false
}

/// Whether no id stands in a list twice.
pub fn all_distinct(ids: &Vec<i32>) -> (r: bool)
    ensures
        r == distinct(ids@),
{
    let mut j: usize = 0;
    while j < ids.len()
        invariant
            j <= ids@.len(),
            distinct(ids@.take(j as int)),
        decreases ids@.len() - j,
    {
        let mut i: usize = 0;
        while i < j
            invariant
                i <= j < ids@.len(),
                forall|k: int| 0 <= k < i ==> #[trigger] ids@[k] != ids@[j as int],
            decreases j - i,
        {
            if ids[i] == ids[j] {
                assert(ids@[i as int] == ids@[j as int]);
                return false;
            }
            i += 1;
        }
        assert forall|a: int, b: int| 0 <= a < b < j + 1 implies #[trigger] ids@.take(j + 1)[a]
            != #[trigger] ids@.take(j + 1)[b] by {
            if b < j {
                assert(ids@.take(j as int)[a] == ids@[a]);
                assert(ids@.take(j as int)[b] == ids@[b]);
            }
        }
        j += 1;
    }
    assert(ids@.take(j as int) == ids@);
    true
}

proof fn lemma_held(ids: Seq<i32>, id: i32)
    ensures
        ids.to_set().contains(id) == ids.contains(id),
{
}

/// Puts an id into an ascending list, where the list does not hold it yet.
pub fn insert(ids: &mut Vec<i32>, id: i32)
    requires
        ascending(old(ids)@),
    ensures
        ascending(final(ids)@),
        final(ids)@.to_set() == old(ids)@.to_set().insert(id),
{
    let mut i: usize = 0;
    while i < ids.len() && ids[i] < id
        invariant
            i <= ids@.len(),
            ids@ == old(ids)@,
            forall|k: int| 0 <= k < i ==> #[trigger] ids@[k] < id,
        decreases ids@.len() - i,
    {
        i += 1;
    }
    if i < ids.len() && ids[i] == id {
        proof {
            assert(ids@.contains(id));
            assert(ids@.to_set() =~= old(ids)@.to_set().insert(id));
        }
        return;
    }
    let ghost before = ids@;
    ids.insert(i, id);
    proof {
        assert forall|a: int, b: int| 0 <= a < b < ids@.len() implies #[trigger] ids@[a]
            < #[trigger] ids@[b] by {
            if a < i && b > i {
                assert(ids@[a] == before[a] && ids@[b] == before[b - 1]);
            } else if a == i {
                assert(ids@[b] == before[b - 1]);
                assert(before[i as int] > id);
                assert(before[i as int] <= before[b - 1]);
            } else if a > i {
                assert(ids@[a] == before[a - 1] && ids@[b] == before[b - 1]);
            } else if b < i {
                assert(ids@[a] == before[a] && ids@[b] == before[b]);
            } else {
                assert(ids@[a] == before[a]);
            }
        }
        assert forall|x: i32| #[trigger]
            ids@.contains(x) <==> (before.contains(x) || x == id) by {
            if before.contains(x) {
                let k = choose|k: int| 0 <= k < before.len() && before[k] == x;
                if k < i {
                    assert(ids@[k] == x);
                } else {
                    assert(ids@[k + 1] == x);
                }
            }
            if x == id {
                assert(ids@[i as int] == id);
            }
            if ids@.contains(x) {
                let k = choose|k: int| 0 <= k < ids@.len() && ids@[k] == x;
                if k < i {
                    assert(before[k] == x);
                } else if k > i {
                    assert(before[k - 1] == x);
                }
            }
        }
        assert forall|x: i32| #[trigger]
            ids@.to_set().contains(x) <==> before.to_set().insert(id).contains(x) by {
            lemma_held(ids@, x);
            lemma_held(before, x);
        }
        assert(ids@.to_set() =~= before.to_set().insert(id));
    }
}

/// Puts all the ids of a list into an ascending one.
pub fn insert_all(ids: &mut Vec<i32>, more: &Vec<i32>)
    requires
        ascending(old(ids)@),
    ensures
        ascending(final(ids)@),
        final(ids)@.to_set() == old(ids)@.to_set() + more@.to_set(),
{
    let ghost before = ids@.to_set();
    let mut i: usize = 0;
    proof {
        assert(ids@.to_set() =~= before + more@.take(0).to_set());
    }
    while i < more.len()
        invariant
            i <= more@.len(),
            ascending(ids@),
            before == old(ids)@.to_set(),
            ids@.to_set() == before + more@.take(i as int).to_set(),
        decreases more@.len() - i,
    {
        insert(ids, more[i]);
        proof {
            let a = more@.take(i as int);
            let b = more@.take(i + 1);
            assert(b =~= a.push(more@[i as int]));
            assert forall|x: i32| b.contains(x) <==> (a.contains(x) || x == more@[i as int]) by {
                if a.contains(x) {
                    let k = choose|k: int| 0 <= k < a.len() && a[k] == x;
                    assert(b[k] == x);
                }
                if x == more@[i as int] {
                    assert(b[i as int] == x);
                }
            }
            assert(before + b.to_set() =~= (before + a.to_set()).insert(more@[i as int]));
        }
        i += 1;
    }
    assert(more@.take(i as int) =~= more@);
}

/// An ascending list is fixed by the ids that it holds.
pub proof fn ascending_lists_are_fixed_by_their_ids(a: Seq<i32>, b: Seq<i32>)
    requires
        ascending(a),
        ascending(b),
        a.to_set() == b.to_set(),
    ensures
        a == b,
    decreases a.len(),
{
    assert forall|x: i32|
        #![trigger a.contains(x)]
        #![trigger b.contains(x)]
        a.contains(x) <==> b.contains(x) by {
        lemma_held(a, x);
        lemma_held(b, x);
    }
    if a.len() == 0 {
        if b.len() > 0 {
            assert(b.contains(b[0]));
        }
        assert(a =~= b);
    } else {
        assert(a.contains(a[0]));
        assert(b.len() > 0);
        assert(a.contains(a.last()));
        assert(b.contains(b.last()));
        let i = choose|i: int| 0 <= i < b.len() && b[i] == a.last();
        let j = choose|j: int| 0 <= j < a.len() && a[j] == b.last();
        assert(a.last() <= b.last()) by {
            if i < b.len() - 1 {
                assert(b[i] < b[b.len() - 1]);
            }
        }
        assert(b.last() <= a.last()) by {
            if j < a.len() - 1 {
                assert(a[j] < a[a.len() - 1]);
            }
        }
        let x = a.drop_last();
        let y = b.drop_last();
        assert forall|v: i32|
            #![trigger x.contains(v)]
            #![trigger y.contains(v)]
            x.contains(v) <==> y.contains(v) by {
            if x.contains(v) {
                let k = choose|k: int| 0 <= k < x.len() && x[k] == v;
                assert(a[k] == v && a[k] < a[a.len() - 1]);
                assert(a.contains(v));
                let m = choose|m: int| 0 <= m < b.len() && b[m] == v;
                assert(y[m] == v);
            }
            if y.contains(v) {
                let k = choose|k: int| 0 <= k < y.len() && y[k] == v;
                assert(b[k] == v && b[k] < b[b.len() - 1]);
                assert(b.contains(v));
                let m = choose|m: int| 0 <= m < a.len() && a[m] == v;
                assert(x[m] == v);
            }
        }
        assert(x.to_set() =~= y.to_set());
        assert forall|p: int, q: int| 0 <= p < q < x.len() implies #[trigger] x[p] < #[trigger] x[q] by {
            assert(a[p] < a[q]);
        }
        assert forall|p: int, q: int| 0 <= p < q < y.len() implies #[trigger] y[p] < #[trigger] y[q] by {
            assert(b[p] < b[q]);
        }
        ascending_lists_are_fixed_by_their_ids(x, y);
        assert(a =~= x.push(a.last()));
        assert(b =~= y.push(b.last()));
    }
}

/// A list rises exactly where each id is below those behind it, and a list that rises names none
/// twice.
pub proof fn rising_lists_name_ids_once(ids: Seq<i32>, id: i32)
    ensures
        ascending(ids) ==> distinct(ids),
        ascending(Seq::empty()),
        distinct(Seq::empty()),
        ascending(ids.push(id)) <==> ascending(ids) && (ids.len() > 0 ==> ids.last() < id),
        distinct(ids.push(id)) <==> distinct(ids) && !ids.contains(id),
{
    let all = ids.push(id);
    assert(forall|i: int| 0 <= i < ids.len() ==> all[i] == #[trigger] ids[i]);
    assert(all[ids.len() as int] == id);
    if ascending(all) {
        assert forall|i: int, j: int| 0 <= i < j < ids.len() implies #[trigger] ids[i]
            < #[trigger] ids[j] by {
            assert(all[i] < all[j]);
        }
        if ids.len() > 0 {
            assert(all[ids.len() - 1] < all[ids.len() as int]);
        }
    }
    if ascending(ids) && (ids.len() > 0 ==> ids.last() < id) {
        assert forall|i: int, j: int| 0 <= i < j < all.len() implies #[trigger] all[i]
            < #[trigger] all[j] by {
            if j == ids.len() {
                assert(i == ids.len() - 1 || ids[i] < ids[ids.len() - 1]);
            } else {
                assert(ids[i] < ids[j]);
            }
        }
    }
    if distinct(all) {
        assert forall|i: int, j: int| 0 <= i < j < ids.len() implies #[trigger] ids[i]
            != #[trigger] ids[j] by {
            assert(all[i] != all[j]);
        }
        if ids.contains(id) {
            let i = choose|i: int| 0 <= i < ids.len() && ids[i] == id;
            assert(all[i] != all[ids.len() as int]);
        }
    }
    if distinct(ids) && !ids.contains(id) {
        assert forall|i: int, j: int| 0 <= i < j < all.len() implies #[trigger] all[i]
            != #[trigger] all[j] by {
            if j < ids.len() {
                assert(ids[i] != ids[j]);
            } else {
                assert(ids[i] != id);
            }
        }
    }
}

} // verus!
