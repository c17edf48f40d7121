//! Calls of the code of puzzles, as the staff reads them.
use vstd::prelude::*;

use crate::clock::Timestamp;
use crate::db::event_log;
use crate::db::event_log::page_size;
use crate::json::Json;
use crate::text::same;

verus! {

/// A call of a puzzle's program.
#[derive(Debug)]
pub struct PuzzleBackendCallLog {
    pub id: i64,
    pub puzzle_id: i32,
    pub team_id: Option<i32>,
    pub team_name: Option<String>,
    pub user_id: Option<i32>,
    pub user_nickname: Option<String>,
    pub execution_type: String,
    pub request_method: Option<String>,
    pub function_name: String,
    pub ok: bool,
    pub duration_ms: i64,
    pub submission_id: Option<i32>,
    pub hint_id: Option<i32>,
    pub error: Option<String>,
    pub console: Json,
    pub console_truncated: bool,
    pub ctime_at: Timestamp,
}

/// Which calls are asked for.
#[derive(Debug, Clone, Copy)]
pub struct PuzzleBackendCallLogQuery<'a> {
    pub puzzle_id: i32,
    pub execution_type: Option<&'a str>,
    pub function_name: Option<&'a str>,
    pub ok: Option<bool>,
    pub team_id: Option<i32>,
    pub user_id: Option<i32>,
    pub from: Option<Timestamp>,
    pub to: Option<Timestamp>,
    pub offset: i64,
    pub limit: i64,
}

impl<'a> PuzzleBackendCallLogQuery<'a> {
    /// Whether a call is asked for.
    pub open spec fn takes(self, call: PuzzleBackendCallLog) -> bool {
        &&& call.puzzle_id == self.puzzle_id
        &&& self.execution_type matches Some(name) ==> call.execution_type@ == name@
        &&& self.function_name matches Some(name) ==> call.function_name@ == name@
        &&& self.ok matches Some(ok) ==> call.ok == ok
        &&& self.team_id is Some ==> call.team_id == self.team_id
        &&& self.user_id is Some ==> call.user_id == self.user_id
        &&& self.from matches Some(from) ==> call.ctime_at >= from
        &&& self.to matches Some(to) ==> call.ctime_at <= to
    }

    fn accepts(&self, call: &PuzzleBackendCallLog) -> (r: bool)
        ensures
            r == self.takes(*call),
    {
        let execution_type = match self.execution_type {
            Some(name) => same(call.execution_type.as_str(), name),
            None => true,
        };
        let function_name = match self.function_name {
            Some(name) => same(call.function_name.as_str(), name),
            None => true,
        };
        let ok = match self.ok {
            Some(ok) => call.ok == ok,
            None => true,
        };
        let team = self.team_id.is_none() || call.team_id == self.team_id;
        let user = self.user_id.is_none() || call.user_id == self.user_id;
        let from = match self.from {
            Some(from) => call.ctime_at >= from,
            None => true,
        };
        let to = match self.to {
            Some(to) => call.ctime_at <= to,
            None => true,
        };
        call.puzzle_id == self.puzzle_id && execution_type && function_name && ok && team && user
            && from && to
    }
}

/// Whether a call is listed before another: it is younger, or as old with a higher number.
pub open spec fn later(a: PuzzleBackendCallLog, b: PuzzleBackendCallLog) -> bool {
    a.ctime_at > b.ctime_at || (a.ctime_at == b.ctime_at && a.id > b.id)
}

/// Where a call goes in a list: behind the last one that it does not come before.
pub open spec fn place(list: Seq<PuzzleBackendCallLog>, call: PuzzleBackendCallLog) -> int
    decreases list.len(),
{
    if list.len() == 0 {
        0
    } else if later(call, list.last()) {
        place(list.drop_last(), call)
    } else {
        list.len() as int
    }
}

/// The calls that are asked for, the latest first.
pub open spec fn calls_listed(
    calls: Seq<PuzzleBackendCallLog>,
    query: PuzzleBackendCallLogQuery<'_>,
) -> Seq<PuzzleBackendCallLog>
    decreases calls.len(),
{
    if calls.len() == 0 {
        Seq::empty()
    } else {
        let list = calls_listed(calls.drop_last(), query);
        if query.takes(calls.last()) {
            list.insert(place(list, calls.last()), calls.last())
        } else {
            list
        }
    }
}

fn find_place(list: &Vec<PuzzleBackendCallLog>, call: &PuzzleBackendCallLog) -> (r: usize)
    ensures
        r == place(list@, *call),
        r <= list@.len(),
{
    let mut i: usize = list.len();
    assert(list@.take(i as int) =~= list@);
    while i > 0
        invariant
            i <= list@.len(),
            place(list@, *call) == place(list@.take(i as int), *call),
        decreases i,
    {
        assert(list@.take(i as int).last() == list@[i - 1]);
        assert(list@.take(i as int).drop_last() =~= list@.take(i - 1));
        let other = &list[i - 1];
        let comes_before = call.ctime_at > other.ctime_at || (call.ctime_at == other.ctime_at
            && call.id > other.id);
        if !comes_before {
            return i;
        }
        i -= 1;
    }
    0
}

/// A page of the calls that are asked for, the latest first.
pub fn list_call_logs(
    calls: Vec<PuzzleBackendCallLog>,
    query: &PuzzleBackendCallLogQuery<'_>,
) -> (r: Vec<PuzzleBackendCallLog>)
    ensures
        ({
            let list = calls_listed(calls@, *query);
            let start = event_log::page_start(query.offset as int);
            let end = start + event_log::page_limit(query.limit as int);
            r@ == if start >= list.len() {
                Seq::empty()
            } else if end > list.len() {
                list.skip(start)
            } else {
                list.subrange(start, end)
            }
        }),
{
    let ghost all = calls@;
    let mut list: Vec<PuzzleBackendCallLog> = Vec::new();
    for call in it: calls
        invariant
            it.seq() == all,
            list@ == calls_listed(all.take(it.index()), *query),
    {
        proof {
            assert(all.take(it.index() + 1).drop_last() =~= all.take(it.index()));
            assert(all.take(it.index() + 1).last() == call);
        }
        if query.accepts(&call) {
            let at = find_place(&list, &call);
            list.insert(at, call);
        }
    }
    assert(all.take(all.len() as int) =~= all);
    let ghost found = list@;
    let n: usize = list.len();
    let start: u64 = if query.offset < 0 {
        0
    } else {
        query.offset as u64
    };
    let limit: u64 = page_size(query.limit) as u64;
    let mut shown: Vec<PuzzleBackendCallLog> = Vec::new();
    let mut passed: usize = 0;
    for call in it: list
        invariant
            it.seq() == found,
            found.len() == n,
            passed == it.index() <= n,
            1 <= limit <= 100,
            shown@.len() == (if passed <= start {
                0
            } else if passed - start > limit {
                limit as int
            } else {
                passed - start
            }),
            forall|i: int| 0 <= i < shown@.len() ==> #[trigger] shown@[i] == found[start + i],
    {
        assert(call == found[it.index()]);
        if passed as u64 >= start && (shown.len() as u64) < limit {
            shown.push(call);
        }
        passed += 1;
    }
    proof {
        let end = start + limit;
        if start < found.len() {
            if end > found.len() {
                assert(shown@ =~= found.skip(start as int));
            } else {
                assert(shown@ =~= found.subrange(start as int, end as int));
            }
        } else {
            assert(shown@ =~= Seq::empty());
        }
    }
    shown
}

/// How many calls are asked for, on all pages together.
pub fn count_call_logs(
    calls: &Vec<PuzzleBackendCallLog>,
    query: &PuzzleBackendCallLogQuery<'_>,
) -> (r: usize)
    ensures
        r == calls_listed(calls@, *query).len(),
{
    let mut count: usize = 0;
    let mut i: usize = 0;
    while i < calls.len()
        invariant
            i <= calls@.len(),
            count <= i,
            count == calls_listed(calls@.take(i as int), *query).len(),
        decreases calls@.len() - i,
    {
        assert(calls@.take(i + 1).drop_last() =~= calls@.take(i as int));
        assert(calls@.take(i + 1).last() == calls@[i as int]);
        if query.accepts(&calls[i]) {
            proof {
                lemma_place(calls_listed(calls@.take(i as int), *query), calls@[i as int]);
            }
            count += 1;
        }
        i += 1;
    }
    assert(calls@.take(i as int) =~= calls@);
    count
}

proof fn lemma_place(list: Seq<PuzzleBackendCallLog>, call: PuzzleBackendCallLog)
    ensures
        0 <= place(list, call) <= list.len(),
    decreases list.len(),
{
    if list.len() > 0 {
        lemma_place(list.drop_last(), call);
    }
}

/// A call is listed exactly where it meets each filter that is set, and always only of the puzzle that
/// is asked for; both ends of the time are met themselves.
pub proof fn calls_meet_every_filter(query: PuzzleBackendCallLogQuery, call: PuzzleBackendCallLog)
    ensures
        query.takes(call) <==> {
            &&& call.puzzle_id == query.puzzle_id
            &&& query.execution_type is None || query.execution_type->0@ == call.execution_type@
            &&& query.function_name is None || query.function_name->0@ == call.function_name@
            &&& query.ok is None || query.ok->0 == call.ok
            &&& query.team_id is None || call.team_id == query.team_id
            &&& query.user_id is None || call.user_id == query.user_id
            &&& query.from is None || query.from->0 <= call.ctime_at
            &&& query.to is None || call.ctime_at <= query.to->0
        },
{
}

proof fn lemma_place_in_order(list: Seq<PuzzleBackendCallLog>, call: PuzzleBackendCallLog)
    requires
        forall|i: int, j: int|
            0 <= i < j < list.len() ==> !later(#[trigger] list[j], #[trigger] list[i]),
    ensures
        0 <= place(list, call) <= list.len(),
        forall|k: int| 0 <= k < place(list, call) ==> !later(call, #[trigger] list[k]),
        forall|k: int| place(list, call) <= k < list.len() ==> later(call, #[trigger] list[k]),
    decreases list.len(),
{
    if list.len() > 0 {
        let init = list.drop_last();
        if later(call, list.last()) {
            lemma_place_in_order(init, call);
            assert forall|k: int| 0 <= k < place(list, call) implies !later(
                call,
                #[trigger] list[k],
            ) by {
                assert(init[k] == list[k]);
            }
            assert forall|k: int| place(list, call) <= k < list.len() implies later(
                call,
                #[trigger] list[k],
            ) by {
                if k < init.len() {
                    assert(init[k] == list[k]);
                }
            }
        } else {
            assert forall|k: int| 0 <= k < list.len() implies !later(call, #[trigger] list[k]) by {
                if k < list.len() - 1 {
                    assert(!later(list[list.len() - 1], list[k]));
                }
            }
        }
    }
}

/// The list starts with the latest call, and of two calls of one time the one with the higher number
/// comes first.
pub proof fn latest_calls_come_first(
    calls: Seq<PuzzleBackendCallLog>,
    query: PuzzleBackendCallLogQuery<'_>,
    i: int,
    j: int,
)
    requires
        0 <= i < j < calls_listed(calls, query).len(),
    ensures
        ({
            let list = calls_listed(calls, query);
            &&& list[i].ctime_at >= list[j].ctime_at
            &&& list[i].ctime_at == list[j].ctime_at ==> list[i].id >= list[j].id
        }),
{
    lemma_listed_in_order(calls, query);
    let list = calls_listed(calls, query);
    assert(!later(list[j], list[i]));
}

proof fn lemma_listed_in_order(
    calls: Seq<PuzzleBackendCallLog>,
    query: PuzzleBackendCallLogQuery<'_>,
)
    ensures
        forall|i: int, j: int|
            0 <= i < j < calls_listed(calls, query).len() ==> !later(
                #[trigger] calls_listed(calls, query)[j],
                #[trigger] calls_listed(calls, query)[i],
            ),
    decreases calls.len(),
{
    if calls.len() > 0 {
        let before = calls_listed(calls.drop_last(), query);
        lemma_listed_in_order(calls.drop_last(), query);
        if query.takes(calls.last()) {
            lemma_place_in_order(before, calls.last());
            lemma_put_in_order(before, calls.last(), place(before, calls.last()));
        }
    }
}

proof fn lemma_put_in_order(list: Seq<PuzzleBackendCallLog>, call: PuzzleBackendCallLog, p: int)
    requires
        0 <= p <= list.len(),
        forall|i: int, j: int|
            0 <= i < j < list.len() ==> !later(#[trigger] list[j], #[trigger] list[i]),
        forall|k: int| 0 <= k < p ==> !later(call, #[trigger] list[k]),
        forall|k: int| p <= k < list.len() ==> later(call, #[trigger] list[k]),
    ensures
        forall|i: int, j: int|
            0 <= i < j <= list.len() ==> !later(
                #[trigger] list.insert(p, call)[j],
                #[trigger] list.insert(p, call)[i],
            ),
{
    let after = list.insert(p, call);
    assert forall|i: int, j: int| 0 <= i < j <= list.len() implies !later(
        #[trigger] after[j],
        #[trigger] after[i],
    ) by {
        if i == p {
            assert(after[j] == list[j - 1]);
            assert(later(call, list[j - 1]));
        } else if j == p {
            assert(after[i] == list[i]);
        } else {
            let a = if i < p {
                i
            } else {
                i - 1
            };
            let b = if j < p {
                j
            } else {
                j - 1
            };
            assert(after[i] == list[a] && after[j] == list[b]);
        }
    }
}

/// The list holds the calls that are asked for, and no others.
pub proof fn calls_asked_for_are_listed(
    calls: Seq<PuzzleBackendCallLog>,
    query: PuzzleBackendCallLogQuery<'_>,
    call: PuzzleBackendCallLog,
)
    ensures
        calls_listed(calls, query).contains(call) <==> calls.contains(call) && query.takes(call),
    decreases calls.len(),
{
    if calls.len() > 0 {
        let init = calls.drop_last();
        let last = calls.last();
        let before = calls_listed(init, query);
        calls_asked_for_are_listed(init, query, call);
        lemma_place(before, last);
        assert(calls =~= init.push(last));
        assert(calls.contains(call) <==> init.contains(call) || call == last) by {
            if init.contains(call) {
                let i = choose|i: int| 0 <= i < init.len() && init[i] == call;
                assert(calls[i] == call);
            }
            assert(calls[calls.len() - 1] == last);
            if calls.contains(call) && call != last {
                let i = choose|i: int| 0 <= i < calls.len() && calls[i] == call;
                assert(init[i] == call);
            }
        }
        if query.takes(last) {
            let p = place(before, last);
            let after = before.insert(p, last);
            assert(after[p] == last);
            if before.contains(call) {
                let k = choose|k: int| 0 <= k < before.len() && before[k] == call;
                assert(after[if k < p {
                    k
                } else {
                    k + 1
                }] == call);
            }
            if after.contains(call) && call != last {
                let k = choose|k: int| 0 <= k < after.len() && after[k] == call;
                assert(before[if k < p {
                    k
                } else {
                    k - 1
                }] == call);
            }
        }
    }
}

} // verus!
