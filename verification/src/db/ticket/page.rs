//! Pages of a ticket's thread.
use base64::Engine;
use base64::engine::general_purpose::URL_SAFE_NO_PAD;
use vstd::prelude::*;

use crate::clock::Timestamp;
use crate::db::ticket::{TicketOperationAction, TicketThreadItem};

verus! {

/// A place in a thread.
#[derive(Debug, Clone, Copy, PartialEq, Eq, Structural)]
pub struct TicketCursor {
    pub at: Timestamp,
    pub rank: i8,
    pub id: i32,
}

/// The text that stands for bytes in base64 with the alphabet for addresses and no padding.
pub uninterp spec fn base64_text(bytes: Seq<u8>) -> Seq<char>;

/// The bytes that a text in base64 stands for, where it is one.
pub uninterp spec fn base64_bytes(text: Seq<char>) -> Option<Seq<u8>>;

/// Whether so many bytes have a text in base64 that a string can hold: four characters for every
/// three bytes.
pub open spec fn has_text(len: nat) -> bool {
    4 * ((len + 2) / 3) <= isize::MAX
}

/// `base64::Engine::encode` of `URL_SAFE_NO_PAD`: the text that stands for the bytes, from which
/// the same engine reads the bytes back. Panics only where the text is longer than a string can be.
#[verifier::external_body]
fn encode_base64(bytes: &Vec<u8>) -> (r: String)
    requires
        has_text(bytes@.len()),
    ensures
        r@ == base64_text(bytes@),
        base64_bytes(r@) == Some(bytes@),
{
    URL_SAFE_NO_PAD.encode(bytes)
}

/// `base64::Engine::decode` of `URL_SAFE_NO_PAD`: the bytes that the text stands for, or an error
/// where it stands for none.
#[verifier::external_body]
fn decode_base64(text: &str) -> (r: Option<Vec<u8>>)
    ensures
        match base64_bytes(text@) {
            Some(bytes) => r matches Some(v) && v@ == bytes,
            None => r is None,
        },
{
    URL_SAFE_NO_PAD.decode(text).ok()
}

impl TicketCursor {
    /// Whether a place comes before another.
    pub open spec fn before(self, other: TicketCursor) -> bool {
        ||| self.at < other.at
        ||| self.at == other.at && self.rank < other.rank
        ||| self.at == other.at && self.rank == other.rank && self.id < other.id
    }

    fn is_before(&self, other: &TicketCursor) -> (r: bool)
        ensures
            r == self.before(*other),
    {
        self.at < other.at || (self.at == other.at && (self.rank < other.rank || (self.rank
            == other.rank && self.id < other.id)))
    }

    /// The bytes of a cursor that a text stands for, where it stands for any.
    pub fn decode(value: &str) -> (r: Option<Vec<u8>>)
        ensures
            match base64_bytes(value@) {
                Some(bytes) => r matches Some(v) && v@ == bytes,
                None => r is None,
            },
    {
        decode_base64(value)
    }

    /// The text that stands for the bytes of a cursor, from which the bytes are read back.
    pub fn encode(serialized: &Vec<u8>) -> (r: String)
        requires
            has_text(serialized@.len()),
        ensures
            r@ == base64_text(serialized@),
            base64_bytes(r@) == Some(serialized@),
    {
        encode_base64(serialized)
    }
}

impl TicketThreadItem {
    /// Where an item stands among those of the same time: an opening first, then messages, then
    /// closings.
    pub open spec fn rank(self) -> i8 {
        match self {
            TicketThreadItem::Operation(operation) => if operation.action is Open {
                0
            } else {
                2
            },
            TicketThreadItem::Message(_) => 1,
        }
    }

    /// The place of an item in its thread.
    pub open spec fn cursor(self) -> TicketCursor {
        TicketCursor { at: self.time(), rank: self.rank(), id: self.number() }
    }

    /// Where an item stands among those of the same time.
    pub fn same_time_rank(&self) -> (r: i8)
        ensures
            r == self.rank(),
    {
        match self {
            TicketThreadItem::Operation(operation) => match operation.action {
                TicketOperationAction::Open => 0,
                TicketOperationAction::Close | TicketOperationAction::AutoCloseSolved => 2,
            },
            TicketThreadItem::Message(_) => 1,
        }
    }
}

/// The place of an item in its thread.
pub fn item_cursor(item: &TicketThreadItem) -> (r: TicketCursor)
    ensures
        r == item.cursor(),
{
    TicketCursor { at: item.ctime_at(), rank: item.same_time_rank(), id: item.id() }
}

/// Where an item goes among items: behind the last one that it does not come before.
pub open spec fn slot(items: Seq<TicketThreadItem>, item: TicketThreadItem) -> int
    decreases items.len(),
{
    if items.len() == 0 {
        0
    } else if item.cursor().before(items.last().cursor()) {
        slot(items.drop_last(), item)
    } else {
        items.len() as int
    }
}

/// Items in the order of a thread; items of one place keep their order.
pub open spec fn ordered(items: Seq<TicketThreadItem>) -> Seq<TicketThreadItem>
    decreases items.len(),
{
    if items.len() == 0 {
        Seq::empty()
    } else {
        let rest = ordered(items.drop_last());
        rest.insert(slot(rest, items.last()), items.last())
    }
}

pub open spec fn in_order(items: Seq<TicketThreadItem>) -> bool {
    forall|i: int, j: int|
        0 <= i < j < items.len() ==> !(#[trigger] items[j]).cursor().before(
            (#[trigger] items[i]).cursor(),
        )
}

proof fn lemma_slot(items: Seq<TicketThreadItem>, item: TicketThreadItem)
    requires
        in_order(items),
    ensures
        0 <= slot(items, item) <= items.len(),
        forall|k: int|
            0 <= k < slot(items, item) ==> !item.cursor().before((#[trigger] items[k]).cursor()),
        forall|k: int|
            slot(items, item) <= k < items.len() ==> item.cursor().before(
                (#[trigger] items[k]).cursor(),
            ),
    decreases items.len(),
{
    if items.len() > 0 {
        let rest = items.drop_last();
        assert forall|i: int, j: int| 0 <= i < j < rest.len() implies !(
        #[trigger] rest[j]).cursor().before((#[trigger] rest[i]).cursor()) by {
            assert(rest[i] == items[i] && rest[j] == items[j]);
        }
        lemma_slot(rest, item);
        let p = slot(items, item);
        assert forall|k: int| p <= k < items.len() implies item.cursor().before(
            (#[trigger] items[k]).cursor(),
        ) by {
            if k < rest.len() {
                assert(rest[k] == items[k]);
            } else {
                assert(items[k] == items.last());
            }
        }
        assert forall|k: int| 0 <= k < p implies !item.cursor().before(
            (#[trigger] items[k]).cursor(),
        ) by {
            if item.cursor().before(items.last().cursor()) {
                assert(rest[k] == items[k]);
            } else if k < items.len() - 1 {
                assert(!items[items.len() - 1].cursor().before(items[k].cursor()));
                assert(items[items.len() - 1] == items.last());
            } else {
                assert(items[k] == items.last());
            }
        }
    }
}

/// A thread is in the order of time, then of rank, then of number.
pub proof fn threads_are_in_order(items: Seq<TicketThreadItem>)
    ensures
        in_order(ordered(items)),
    decreases items.len(),
{
    if items.len() > 0 {
        let rest = ordered(items.drop_last());
        let item = items.last();
        threads_are_in_order(items.drop_last());
        lemma_slot(rest, item);
        let p = slot(rest, item);
        let all = ordered(items);
        assert(all == rest.insert(p, item));
        assert forall|i: int, j: int| 0 <= i < j < all.len() implies !(
        #[trigger] all[j]).cursor().before((#[trigger] all[i]).cursor()) by {
            if j < p {
                assert(all[i] == rest[i] && all[j] == rest[j]);
            } else if i > p {
                assert(all[i] == rest[i - 1] && all[j] == rest[j - 1]);
            } else if j == p {
                assert(all[i] == rest[i] && all[j] == item);
            } else if i == p {
                assert(all[j] == rest[j - 1] && all[i] == item);
                assert(item.cursor().before(rest[j - 1].cursor()));
            } else {
                assert(all[i] == rest[i] && all[j] == rest[j - 1]);
            }
        }
    }
}

/// Putting a thread into order neither adds nor drops an item.
pub proof fn ordering_keeps_the_items(items: Seq<TicketThreadItem>)
    ensures
        ordered(items).to_multiset() == items.to_multiset(),
        ordered(items).len() == items.len(),
    decreases items.len(),
{
    broadcast use vstd::seq_lib::group_to_multiset_ensures;

    if items.len() > 0 {
        let rest = ordered(items.drop_last());
        let item = items.last();
        ordering_keeps_the_items(items.drop_last());
        threads_are_in_order(items.drop_last());
        lemma_slot(rest, item);
        assert(items =~= items.drop_last().push(item));
        vstd::seq_lib::to_multiset_insert(rest, slot(rest, item), item);
    } else {
        assert(ordered(items) =~= items);
    }
}

fn find_slot(items: &Vec<TicketThreadItem>, item: &TicketThreadItem) -> (r: usize)
    ensures
        r == slot(items@, *item),
        r <= items@.len(),
{
    let cursor = item_cursor(item);
    let mut i: usize = items.len();
    assert(items@.take(i as int) =~= items@);
    while i > 0
        invariant
            i <= items@.len(),
            cursor == item.cursor(),
            slot(items@, *item) == slot(items@.take(i as int), *item),
        decreases i,
    {
        let last = item_cursor(&items[i - 1]);
        assert(items@.take(i as int).last() == items@[i - 1]);
        assert(items@.take(i as int).drop_last() =~= items@.take(i - 1));
        if !cursor.is_before(&last) {
            return i;
        }
        i -= 1;
    }
    0
}

fn put_in_order(items: Vec<TicketThreadItem>) -> (r: Vec<TicketThreadItem>)
    ensures
        r@ == ordered(items@),
{
    let mut sorted: Vec<TicketThreadItem> = Vec::new();
    for item in it: items
        invariant
            it.seq() == items@,
            0 <= it.index() <= items@.len(),
            sorted@ == ordered(items@.take(it.index())),
    {
        proof {
            assert(items@.take(it.index() + 1).drop_last() =~= items@.take(it.index()));
            assert(items@.take(it.index() + 1).last() == item);
        }
        let at = find_slot(&sorted, &item);
        sorted.insert(at, item);
    }
    assert(items@.take(items@.len() as int) =~= items@);
    sorted
}

/// Which page of a thread is asked for.
#[derive(Debug, Clone, Copy, PartialEq, Eq, Structural)]
pub struct TicketPageRequest {
    pub before: Option<TicketCursor>,
    pub after: Option<TicketCursor>,
    pub stop: Option<TicketCursor>,
    pub oldest: bool,
}

/// The request for the latest page.
pub open spec fn latest_request() -> TicketPageRequest {
    TicketPageRequest { before: None, after: None, stop: None, oldest: false }
}

impl Default for TicketPageRequest {
    fn default() -> (r: Self)
        ensures
            r == latest_request(),
    {
        TicketPageRequest { before: None, after: None, stop: None, oldest: false }
    }
}

impl TicketPageRequest {
    /// Whether the page is read from the past towards the present.
    pub open spec fn forward(self) -> bool {
        self.after is Some || self.oldest
    }

    /// The place from which the page is read.
    pub open spec fn start(self) -> Option<TicketCursor> {
        if self.after is Some {
            self.after
        } else {
            self.before
        }
    }

    /// Whether what stands at a place is asked for: it lies beyond the place from which the page is
    /// read, and before the place where it stops.
    pub open spec fn asks_for(self, place: TicketCursor) -> bool {
        &&& self.start() matches Some(start) ==> if self.forward() {
            start.before(place)
        } else {
            place.before(start)
        }
        &&& self.stop matches Some(stop) ==> place.before(stop)
    }

    fn wants(&self, place: &TicketCursor) -> (r: bool)
        ensures
            r == self.asks_for(*place),
    {
        let start = match self.after {
            Some(cursor) => Some(cursor),
            None => self.before,
        };
        let beyond = match start {
            Some(start) => if self.after.is_some() || self.oldest {
                start.is_before(place)
            } else {
                place.is_before(&start)
            },
            None => true,
        };
        let in_time = match self.stop {
            Some(stop) => place.is_before(&stop),
            None => true,
        };
        beyond && in_time
    }
}

/// The items that are asked for.
pub open spec fn asked(items: Seq<TicketThreadItem>, request: TicketPageRequest) -> Seq<
    TicketThreadItem,
>
    decreases items.len(),
{
    if items.len() == 0 {
        Seq::empty()
    } else if request.asks_for(items.last().cursor()) {
        asked(items.drop_last(), request).push(items.last())
    } else {
        asked(items.drop_last(), request)
    }
}

fn keep_asked(items: Vec<TicketThreadItem>, request: &TicketPageRequest) -> (r: Vec<
    TicketThreadItem,
>)
    ensures
        r@ == asked(items@, *request),
{
    let ghost all = items@;
    let mut kept: Vec<TicketThreadItem> = Vec::new();
    for item in it: items
        invariant
            it.seq() == all,
            kept@ == asked(all.take(it.index()), *request),
    {
        proof {
            assert(all.take(it.index() + 1).drop_last() =~= all.take(it.index()));
            assert(all.take(it.index() + 1).last() == item);
        }
        if request.wants(&item_cursor(&item)) {
            kept.push(item);
        }
    }
    assert(all.take(all.len() as int) =~= all);
    kept
}

/// What the queries for a page are bound to.
#[derive(Debug, Clone, Copy, PartialEq, Eq, Structural)]
pub struct TicketPageQuery {
    pub forward: bool,
    pub cursor: Option<TicketCursor>,
    pub stop: Option<TicketCursor>,
    pub limit: i64,
}

/// What the queries for a page are bound to: one item more than the page holds is asked for.
pub fn page_query(request: &TicketPageRequest, limit: u32) -> (r: TicketPageQuery)
    ensures
        r.forward == request.forward(),
        r.cursor == request.start(),
        r.stop == request.stop,
        r.limit == limit + 1,
{
    let cursor = match request.after {
        Some(cursor) => Some(cursor),
        None => request.before,
    };
    TicketPageQuery {
        forward: request.after.is_some() || request.oldest,
        cursor,
        stop: request.stop,
        limit: limit as i64 + 1,
    }
}

/// Where a page stands in its thread.
#[derive(Debug, Clone, Copy, PartialEq, Eq, Structural)]
pub struct TicketHistory {
    pub before: Option<TicketCursor>,
    pub after: Option<TicketCursor>,
    pub stop: Option<TicketCursor>,
    pub newer: Option<TicketCursor>,
    pub has_more: bool,
}

/// The history of a thread that nothing is known of.
pub open spec fn no_history() -> TicketHistory {
    TicketHistory { before: None, after: None, stop: None, newer: None, has_more: false }
}

impl Default for TicketHistory {
    fn default() -> (r: Self)
        ensures
            r == no_history(),
    {
        TicketHistory { before: None, after: None, stop: None, newer: None, has_more: false }
    }
}

/// A page of a thread.
#[derive(Debug)]
pub struct TicketMessagePage {
    pub items: Vec<TicketThreadItem>,
    pub history: TicketHistory,
}

/// The items of a page: the first ones where it is read forward, and the last ones otherwise.
pub open spec fn page_items(found: Seq<TicketThreadItem>, forward: bool, limit: int) -> Seq<
    TicketThreadItem,
> {
    if found.len() <= limit {
        ordered(found)
    } else if forward {
        ordered(found).take(limit)
    } else {
        ordered(found).skip(found.len() - limit)
    }
}

/// The place of the first item.
pub open spec fn first_cursor(items: Seq<TicketThreadItem>) -> Option<TicketCursor> {
    if items.len() > 0 {
        Some(items[0].cursor())
    } else {
        None
    }
}

/// The place of the last item.
pub open spec fn last_cursor(items: Seq<TicketThreadItem>) -> Option<TicketCursor> {
    if items.len() > 0 {
        Some(items.last().cursor())
    } else {
        None
    }
}

/// Where a page stands in its thread.
pub open spec fn page_history(
    found: Seq<TicketThreadItem>,
    request: TicketPageRequest,
    limit: int,
) -> TicketHistory {
    let items = page_items(found, request.forward(), limit);
    let more = found.len() > limit;
    TicketHistory {
        before: if !request.forward() && more {
            first_cursor(items)
        } else {
            None
        },
        after: if request.forward() && more {
            last_cursor(items)
        } else {
            None
        },
        stop: request.stop,
        newer: last_cursor(items),
        has_more: more,
    }
}

fn first_of(items: &Vec<TicketThreadItem>) -> (r: Option<TicketCursor>)
    ensures
        r == first_cursor(items@),
{
    if items.len() > 0 {
        Some(item_cursor(&items[0]))
    } else {
        None
    }
}

fn last_of(items: &Vec<TicketThreadItem>) -> (r: Option<TicketCursor>)
    ensures
        r == last_cursor(items@),
{
    if items.len() > 0 {
        Some(item_cursor(&items[items.len() - 1]))
    } else {
        None
    }
}

/// A page of a thread, made of the messages and operations that are asked for.
pub fn get_ticket_messages_page(
    items: Vec<TicketThreadItem>,
    request: &TicketPageRequest,
    limit: u32,
) -> (r: TicketMessagePage)
    ensures
        r.items@ == page_items(asked(items@, *request), request.forward(), limit as int),
        r.history == page_history(asked(items@, *request), *request, limit as int),
{
    let limit: usize = limit as usize;
    let forward = request.after.is_some() || request.oldest;
    let found = keep_asked(items, request);
    let has_more = found.len() > limit;
    proof {
        ordering_keeps_the_items(found@);
    }
    let mut shown = put_in_order(found);
    if has_more {
        if forward {
            shown.truncate(limit);
        } else {
            let n = shown.len() - limit;
            shown = shown.split_off(n);
        }
    }
    assert(shown@ =~= page_items(found@, request.forward(), limit as int));
    let before = if !forward && has_more {
        first_of(&shown)
    } else {
        None
    };
    let after = if forward && has_more {
        last_of(&shown)
    } else {
        None
    };
    let newer = last_of(&shown);
    TicketMessagePage {
        items: shown,
        history: TicketHistory { before, after, stop: request.stop, newer, has_more },
    }
}

/// How many items a page holds.
pub const PAGE_SIZE: u32 = 50;

/// The first page that is fetched, and whether that page is the answer as it stands. A request
/// without a place asks for the latest page.
pub fn first_fetch(request: &TicketPageRequest) -> (r: (TicketPageRequest, bool))
    ensures
        r.1 == (request.before is Some || request.after is Some),
        r.0 == (if r.1 {
            *request
        } else {
            latest_request()
        }),
{
    if request.before.is_some() || request.after.is_some() {
        (*request, true)
    } else {
        (TicketPageRequest::default(), false)
    }
}

/// Whether the first item of a thread is to be fetched too: that of a puzzle's ticket is always
/// shown, though the latest page does not reach back to it.
pub fn needs_first(is_puzzle: bool, latest: &TicketMessagePage) -> (r: bool)
    ensures
        r == (is_puzzle && latest.history.before is Some),
{
    is_puzzle && latest.history.before.is_some()
}

/// The request for the first item of a thread.
pub fn oldest_request() -> (r: TicketPageRequest)
    ensures
        r == (TicketPageRequest { oldest: true, ..latest_request() }),
{
    TicketPageRequest { before: None, after: None, stop: None, oldest: true }
}

/// Whether one of some items stands at a place.
pub open spec fn holds_place(items: Seq<TicketThreadItem>, cursor: TicketCursor) -> bool {
    exists|i: int| 0 <= i < items.len() && (#[trigger] items[i]).cursor() == cursor
}

fn has_place(items: &Vec<TicketThreadItem>, cursor: TicketCursor) -> (r: bool)
    ensures
        r == holds_place(items@, cursor),
{
    let mut i: usize = 0;
    while i < items.len()
        invariant
            i <= items@.len(),
            forall|k: int| 0 <= k < i ==> (#[trigger] items@[k]).cursor() != cursor,
        decreases items@.len() - i,
    {
        if item_cursor(&items[i]) == cursor {
            assert(items@[i as int].cursor() == cursor);
            return true;
        }
        i += 1;
    }
    false
}

/// The latest items with the first one of the thread before them.
pub open spec fn with_first(items: Seq<TicketThreadItem>, first: TicketThreadItem) -> Seq<
    TicketThreadItem,
> {
    if holds_place(items, first.cursor()) {
        items
    } else {
        items.insert(0, first)
    }
}

/// Puts the first item of a thread before the latest ones, where it is not among them, and says
/// how to look for items between the two.
pub fn join_first(latest: Vec<TicketThreadItem>, first: TicketThreadItem) -> (r: (
    Vec<TicketThreadItem>,
    TicketPageRequest,
))
    ensures
        r.0@ == with_first(latest@, first),
        r.1 == (TicketPageRequest {
            after: Some(first.cursor()),
            stop: first_cursor(latest@),
            ..latest_request()
        }),
{
    let cursor = item_cursor(&first);
    let stop = first_of(&latest);
    let mut items = latest;
    if !has_place(&items, cursor) {
        items.insert(0, first);
    }
    (items, TicketPageRequest { before: None, after: Some(cursor), stop, oldest: false })
}

/// Where a page with the first item stands in its thread, given whether anything lies between the
/// first item and the latest ones.
pub fn joined_history(
    items: &Vec<TicketThreadItem>,
    probe: &TicketPageRequest,
    gap_is_empty: bool,
) -> (r: TicketHistory)
    ensures
        r == (if gap_is_empty {
            TicketHistory { newer: last_cursor(items@), ..no_history() }
        } else {
            TicketHistory {
                before: None,
                after: probe.after,
                stop: probe.stop,
                newer: last_cursor(items@),
                has_more: true,
            }
        }),
{
    let newer = last_of(items);
    if gap_is_empty {
        TicketHistory { before: None, after: None, stop: None, newer, has_more: false }
    } else {
        TicketHistory {
            before: None,
            after: probe.after,
            stop: probe.stop,
            newer,
            has_more: true,
        }
    }
}

/// The page that answers a request, given the page that was fetched first, the first item of the
/// thread, and whether anything lies between the two: a page of a puzzle's ticket without a place
/// shows that item too.
pub fn get_ticket_page(
    request: &TicketPageRequest,
    is_puzzle: bool,
    latest: TicketMessagePage,
    first: Option<TicketThreadItem>,
    gap_is_empty: bool,
) -> (r: TicketMessagePage)
    ensures
        ({
            let placed = request.before is Some || request.after is Some;
            match first {
                Some(item) if !placed && is_puzzle && latest.history.before is Some => {
                    &&& r.items@ == with_first(latest.items@, item)
                    &&& r.history == (if gap_is_empty {
                        TicketHistory { newer: last_cursor(r.items@), ..no_history() }
                    } else {
                        TicketHistory {
                            before: None,
                            after: Some(item.cursor()),
                            stop: first_cursor(latest.items@),
                            newer: last_cursor(r.items@),
                            has_more: true,
                        }
                    })
                },
                _ => r == latest,
            }
        }),
{
    let (_, placed) = first_fetch(request);
    if placed || !needs_first(is_puzzle, &latest) {
        return latest;
    }
    match first {
        Some(item) => {
            let (items, probe) = join_first(latest.items, item);
            let history = joined_history(&items, &probe, gap_is_empty);
            TicketMessagePage { items, history }
        },
        None => latest,
    }
}

/// Whether every item of a thread stands before the next one.
pub open spec fn strictly_in_order(items: Seq<TicketThreadItem>) -> bool {
    forall|i: int, j: int|
        0 <= i < j < items.len() ==> (#[trigger] items[i]).cursor().before(
            (#[trigger] items[j]).cursor(),
        )
}

/// A thread that is in order stays as it is.
proof fn lemma_ordered_is_kept(items: Seq<TicketThreadItem>)
    requires
        strictly_in_order(items),
    ensures
        ordered(items) == items,
    decreases items.len(),
{
    if items.len() > 0 {
        let rest = items.drop_last();
        assert forall|i: int, j: int| 0 <= i < j < rest.len() implies (
        #[trigger] rest[i]).cursor().before((#[trigger] rest[j]).cursor()) by {
            assert(rest[i] == items[i] && rest[j] == items[j]);
        }
        lemma_ordered_is_kept(rest);
        if rest.len() > 0 {
            assert(items[items.len() - 2].cursor().before(items[items.len() - 1].cursor()));
            assert(rest.last() == items[items.len() - 2]);
        }
        assert(slot(rest, items.last()) == rest.len());
        assert(rest.insert(rest.len() as int, items.last()) =~= items);
    } else {
        assert(ordered(items) =~= items);
    }
}

/// What is asked for of a thread in order, from an item on, is what lies beyond the item.
proof fn lemma_asked_after(items: Seq<TicketThreadItem>, at: int)
    requires
        strictly_in_order(items),
        0 <= at < items.len(),
    ensures
        asked(items, TicketPageRequest { after: Some(items[at].cursor()), ..latest_request() })
            == items.skip(at + 1),
    decreases items.len(),
{
    let place = items[at].cursor();
    let request = TicketPageRequest { after: Some(place), ..latest_request() };
    let rest = items.drop_last();
    assert forall|i: int, j: int| 0 <= i < j < rest.len() implies (
    #[trigger] rest[i]).cursor().before((#[trigger] rest[j]).cursor()) by {
        assert(rest[i] == items[i] && rest[j] == items[j]);
    }
    if at < rest.len() {
        lemma_asked_after(rest, at);
        assert(rest[at] == items[at]);
        assert(items[at].cursor().before(items[items.len() - 1].cursor()));
        assert(rest.skip(at + 1).push(items.last()) =~= items.skip(at + 1));
    } else {
        lemma_asked_none_after(rest, place);
        assert(items.skip(at + 1) =~= Seq::<TicketThreadItem>::empty());
    }
}

proof fn lemma_asked_none_after(items: Seq<TicketThreadItem>, place: TicketCursor)
    requires
        forall|i: int| 0 <= i < items.len() ==> (#[trigger] items[i]).cursor().before(place),
    ensures
        asked(items, TicketPageRequest { after: Some(place), ..latest_request() }) == Seq::<
            TicketThreadItem,
        >::empty(),
    decreases items.len(),
{
    if items.len() > 0 {
        assert(items[items.len() - 1].cursor().before(place));
        let rest = items.drop_last();
        assert forall|i: int| 0 <= i < rest.len() implies (#[trigger] rest[i]).cursor().before(
            place,
        ) by {
            assert(rest[i] == items[i]);
        }
        lemma_asked_none_after(rest, place);
    }
}

/// What is asked for of a thread in order, back from an item, is what lies before the item.
proof fn lemma_asked_before(items: Seq<TicketThreadItem>, at: int)
    requires
        strictly_in_order(items),
        0 <= at < items.len(),
    ensures
        asked(items, TicketPageRequest { before: Some(items[at].cursor()), ..latest_request() })
            == items.take(at),
    decreases items.len(),
{
    let place = items[at].cursor();
    let rest = items.drop_last();
    assert forall|i: int, j: int| 0 <= i < j < rest.len() implies (
    #[trigger] rest[i]).cursor().before((#[trigger] rest[j]).cursor()) by {
        assert(rest[i] == items[i] && rest[j] == items[j]);
    }
    if at < rest.len() {
        lemma_asked_before(rest, at);
        assert(rest[at] == items[at]);
        assert(items[at].cursor().before(items[items.len() - 1].cursor()));
        assert(rest.take(at) =~= items.take(at));
    } else {
        lemma_asked_all_before(rest, place);
        assert(items.take(at) =~= rest);
    }
}

proof fn lemma_asked_all_before(items: Seq<TicketThreadItem>, place: TicketCursor)
    requires
        forall|i: int| 0 <= i < items.len() ==> (#[trigger] items[i]).cursor().before(place),
    ensures
        asked(items, TicketPageRequest { before: Some(place), ..latest_request() }) == items,
    decreases items.len(),
{
    if items.len() > 0 {
        assert(items[items.len() - 1].cursor().before(place));
        let rest = items.drop_last();
        assert forall|i: int| 0 <= i < rest.len() implies (#[trigger] rest[i]).cursor().before(
            place,
        ) by {
            assert(rest[i] == items[i]);
        }
        lemma_asked_all_before(rest, place);
        assert(rest.push(items.last()) =~= items);
    } else {
        assert(items =~= Seq::<TicketThreadItem>::empty());
    }
}

/// Reading a thread onwards from an item shows what follows the item, as many items as fit on a
/// page; the page after it begins where this one ends, so nothing is left out or shown twice.
pub proof fn pages_onwards_join(items: Seq<TicketThreadItem>, at: int, limit: int)
    requires
        strictly_in_order(items),
        0 <= at < items.len(),
        limit > 0,
    ensures
        ({
            let request = TicketPageRequest {
                after: Some(items[at].cursor()),
                ..latest_request()
            };
            let found = asked(items, request);
            let page = page_items(found, true, limit);
            let next = page_history(found, request, limit).after;
            if at + 1 + limit < items.len() {
                &&& page == items.subrange(at + 1, at + 1 + limit)
                &&& next == Some(items[at + limit].cursor())
                &&& asked(items, TicketPageRequest { after: next, ..latest_request() })
                    == items.skip(at + 1 + limit)
            } else {
                page == items.skip(at + 1) && next is None
            }
        }),
{
    lemma_asked_after(items, at);
    let rest = items.skip(at + 1);
    assert forall|i: int, j: int| 0 <= i < j < rest.len() implies (
    #[trigger] rest[i]).cursor().before((#[trigger] rest[j]).cursor()) by {
        assert(rest[i] == items[at + 1 + i] && rest[j] == items[at + 1 + j]);
    }
    lemma_ordered_is_kept(rest);
    if at + 1 + limit < items.len() {
        let page = rest.take(limit);
        assert(page =~= items.subrange(at + 1, at + 1 + limit));
        assert(page.last() == items[at + limit]);
        lemma_asked_after(items, at + limit);
    }
}

/// Reading a thread back from an item shows what comes before the item, as many items as fit on a
/// page; the page before it ends where this one begins.
pub proof fn pages_back_join(items: Seq<TicketThreadItem>, at: int, limit: int)
    requires
        strictly_in_order(items),
        0 <= at < items.len(),
        limit > 0,
    ensures
        ({
            let request = TicketPageRequest {
                before: Some(items[at].cursor()),
                ..latest_request()
            };
            let found = asked(items, request);
            let page = page_items(found, false, limit);
            let next = page_history(found, request, limit).before;
            if limit < at {
                &&& page == items.subrange(at - limit, at)
                &&& next == Some(items[at - limit].cursor())
                &&& asked(items, TicketPageRequest { before: next, ..latest_request() })
                    == items.take(at - limit)
            } else {
                page == items.take(at) && next is None
            }
        }),
{
    lemma_asked_before(items, at);
    let rest = items.take(at);
    assert forall|i: int, j: int| 0 <= i < j < rest.len() implies (
    #[trigger] rest[i]).cursor().before((#[trigger] rest[j]).cursor()) by {
        assert(rest[i] == items[i] && rest[j] == items[j]);
    }
    lemma_ordered_is_kept(rest);
    if limit < at {
        let page = rest.skip(at - limit);
        assert(page =~= items.subrange(at - limit, at));
        assert(page[0] == items[at - limit]);
        lemma_asked_before(items, at - limit);
    }
}

/// A page never holds more items than it may, and says that there are more exactly where some were
/// left out.
pub proof fn pages_are_bounded(
    found: Seq<TicketThreadItem>,
    request: TicketPageRequest,
    limit: int,
)
    requires
        limit >= 0,
    ensures
        page_items(found, request.forward(), limit).len() <= limit,
        page_history(found, request, limit).has_more <==> page_items(
            found,
            request.forward(),
            limit,
        ).len() < found.len(),
        in_order(page_items(found, request.forward(), limit)),
{
    ordering_keeps_the_items(found);
    threads_are_in_order(found);
    let all = ordered(found);
    let items = page_items(found, request.forward(), limit);
    assert forall|i: int, j: int| 0 <= i < j < items.len() implies !(
    #[trigger] items[j]).cursor().before((#[trigger] items[i]).cursor()) by {
        let shift = if found.len() > limit && !request.forward() {
            found.len() - limit
        } else {
            0
        };
        assert(items[i] == all[i + shift] && items[j] == all[j + shift]);
    }
}

/// Of two items the older comes first; of two of one time the opening of the ticket comes first, then
/// messages, then other operations; of two of one time and sort, the one with the lower number.
pub proof fn items_come_by_time_and_sort(a: TicketThreadItem, b: TicketThreadItem)
    ensures
        a.time() < b.time() ==> a.cursor().before(b.cursor()) && !b.cursor().before(a.cursor()),
        a.time() == b.time() && (a matches TicketThreadItem::Operation(op) && op.action
            == TicketOperationAction::Open) && (b is Message || (b
            matches TicketThreadItem::Operation(op) && op.action != TicketOperationAction::Open))
            ==> a.cursor().before(b.cursor()) && !b.cursor().before(a.cursor()),
        a.time() == b.time() && a is Message && (b matches TicketThreadItem::Operation(op)
            && op.action != TicketOperationAction::Open) ==> a.cursor().before(b.cursor())
            && !b.cursor().before(a.cursor()),
        a.time() == b.time() && a is Message && b is Message ==> (a.cursor().before(b.cursor())
            <==> a.number() < b.number()),
        a.time() == b.time() && (a matches TicketThreadItem::Operation(o) && b
            matches TicketThreadItem::Operation(p) && (o.action == TicketOperationAction::Open
            <==> p.action == TicketOperationAction::Open)) ==> (a.cursor().before(b.cursor())
            <==> a.number() < b.number()),
        a.cursor().at == a.time(),
        a.cursor().id == a.number(),
{
}

/// A thread is asked for from a place onwards, up to a place, or both; what is asked for is older than
/// the place to stop at. Onwards is asked for after a place or from the oldest item, and back
/// otherwise.
pub proof fn requests_ask_for_places(request: TicketPageRequest, place: TicketCursor)
    ensures
        request.forward() <==> request.after is Some || request.oldest,
        request.after matches Some(after) ==> request.start() == Some(after) && (request.asks_for(
            place,
        ) ==> after.before(place)),
        request.after is None ==> request.start() == request.before,
        request.after is None && !request.oldest && request.before is Some && request.asks_for(place)
            ==> place.before(request.before->0),
        request.stop is Some && request.asks_for(place) ==> place.before(request.stop->0),
        request.after is None && request.before is None && request.stop is None ==> request.asks_for(
            place,
        ),
        request.after is Some && request.stop is None ==> (request.asks_for(place)
            <==> request.after->0.before(place)),
        request.after is None && !request.oldest && request.before is Some && request.stop is None
            ==> (request.asks_for(place) <==> place.before(request.before->0)),
        request.after is None && request.before is None && request.stop is Some ==> (
        request.asks_for(place) <==> place.before(request.stop->0)),
        request.after is Some && request.stop is Some && request.after->0.before(place)
            && place.before(request.stop->0) ==> request.asks_for(place),
        request.after is None && !request.oldest && request.before is Some && request.stop is Some
            && place.before(request.before->0) && place.before(request.stop->0) ==> request.asks_for(
            place,
        ),
{
}

/// The items that are asked for are found in their order, and no others.
pub proof fn items_asked_for_are_found(
    items: Seq<TicketThreadItem>,
    item: TicketThreadItem,
    request: TicketPageRequest,
)
    ensures
        asked(Seq::empty(), request).len() == 0,
        request.asks_for(item.cursor()) ==> asked(items.push(item), request) == asked(
            items,
            request,
        ).push(item),
        !request.asks_for(item.cursor()) ==> asked(items.push(item), request) == asked(
            items,
            request,
        ),
{
    assert(items.push(item).drop_last() =~= items);
}

/// A page that does not hold all that was found says so, and where to go on: onwards behind its last
/// item, back before its first. Every page tells its last item, for what is written later.
pub proof fn pages_tell_where_to_go_on(
    found: Seq<TicketThreadItem>,
    request: TicketPageRequest,
    limit: int,
)
    requires
        0 < limit,
    ensures
        ({
            let items = page_items(found, request.forward(), limit);
            let told = page_history(found, request, limit);
            &&& found.len() > 0 ==> items.len() > 0
            &&& found.len() <= limit ==> items.len() == found.len() && told.before is None
                && told.after is None && !told.has_more
            &&& found.len() > limit ==> items.len() == limit && told.has_more
            &&& found.len() > limit && request.forward() ==> told.before is None && told.after
                == Some(items[limit - 1].cursor())
            &&& found.len() > limit && !request.forward() ==> told.after is None && told.before
                == Some(items[0].cursor())
            &&& found.len() == 0 ==> told.newer is None
            &&& found.len() > 0 ==> told.newer == Some(items[items.len() - 1].cursor())
            &&& told.stop == request.stop
        }),
{
    ordering_keeps_the_items(found);
}

/// A page holds the oldest of what was found where it goes onwards, and the youngest where it goes
/// back: nothing that was left out stands on the other side.
pub proof fn pages_take_the_near_end(
    found: Seq<TicketThreadItem>,
    forward: bool,
    limit: int,
    i: int,
    j: int,
)
    requires
        0 <= i < limit < found.len(),
        0 <= j < found.len() - limit,
    ensures
        ({
            let page = page_items(found, forward, limit);
            let all = ordered(found);
            &&& forward ==> page[i] == all[i] && !all[limit + j].cursor().before(page[i].cursor())
            &&& !forward ==> page[i] == all[found.len() - limit + i] && !page[i].cursor().before(
                all[j].cursor(),
            )
        }),
{
    ordering_keeps_the_items(found);
    threads_are_in_order(found);
}

/// The first item is put in front of those that lack it, and of no others; the rest stay as they are.
pub proof fn first_items_are_put_in_front(items: Seq<TicketThreadItem>, first: TicketThreadItem)
    ensures
        (exists|i: int| 0 <= i < items.len() && (#[trigger] items[i]).cursor() == first.cursor())
            ==> with_first(items, first) == items,
        (forall|i: int| 0 <= i < items.len() ==> (#[trigger] items[i]).cursor() != first.cursor())
            ==> with_first(items, first).len() == items.len() + 1 && with_first(items, first)[0]
            == first && with_first(items, first).skip(1) == items,
{
    if !holds_place(items, first.cursor()) {
        assert(with_first(items, first).skip(1) =~= items);
    }
}

/// Bytes can be written as text where four characters for each three bytes fit.
pub proof fn texts_grow_by_a_third(len: nat)
    ensures
        has_text(0),
        len <= 1_000_000_000 ==> has_text(len),
        has_text(len) && len > 0 ==> has_text((len - 1) as nat),
{
}

/// Nothing is asked for in particular by the request for the latest items, and nothing is told by the
/// history of an empty thread.
pub proof fn latest_items_are_asked_for_by_default(place: TicketCursor)
    ensures
        !latest_request().forward(),
        latest_request().asks_for(place),
        no_history().before is None && no_history().after is None && no_history().stop is None
            && no_history().newer is None && !no_history().has_more,
{
}

} // verus!
