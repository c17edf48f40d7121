//! Tickets as the staff lists them, and how far players may write.
use vstd::prelude::*;

use crate::db::ticket;
use crate::db::ticket::{get_ticket_summary, PlayerFeatureAccess, TicketRow, TicketSummary};

verus! {

/// How far a feature is open, as it is stored for a game and for a team; nothing stored means that
/// it is open.
#[derive(Debug, Clone, Copy, PartialEq, Eq, Structural)]
pub struct FeatureAccessRow {
    pub team_enabled: Option<bool>,
    pub game_state: Option<i16>,
}

impl FeatureAccessRow {
    /// How far the feature is open to the team's members.
    pub open spec fn access(self) -> PlayerFeatureAccess {
        if self.team_enabled == Some(false) {
            PlayerFeatureAccess::TeamFeatureBanned
        } else {
            match self.game_state {
                Some(state) => PlayerFeatureAccess::of_value(state),
                None => PlayerFeatureAccess::Open,
            }
        }
    }
}

/// How far a feature is open to the members of a team; not at all where the team is not there.
pub fn player_feature_access(row: Option<FeatureAccessRow>) -> (r: PlayerFeatureAccess)
    ensures
        r == (match row {
            Some(row) => row.access(),
            None => PlayerFeatureAccess::GameClosed,
        }),
{
    match row {
        Some(row) => {
            let banned = match row.team_enabled {
                Some(enabled) => !enabled,
                None => false,
            };
            if banned {
                return PlayerFeatureAccess::TeamFeatureBanned;
            }
            match row.game_state {
                Some(state) => PlayerFeatureAccess::from_value(state),
                None => PlayerFeatureAccess::Open,
            }
        },
        None => PlayerFeatureAccess::GameClosed,
    }
}

/// How far the members of a team may write to the staff, given how far that feature is open.
pub fn player_dm_feature_access(row: Option<FeatureAccessRow>) -> (r: PlayerFeatureAccess)
    ensures
        r == (match row {
            Some(row) => row.access(),
            None => PlayerFeatureAccess::GameClosed,
        }),
{
    player_feature_access(row)
}

/// How far the members of a team may write in a ticket: a ticket of a puzzle that is not released
/// is closed to them.
pub fn player_ticket_feature_access(row: Option<FeatureAccessRow>, is_released: bool) -> (r:
    PlayerFeatureAccess)
    ensures
        r == (match row {
            Some(row) => if row.team_enabled != Some(false) && !is_released {
                PlayerFeatureAccess::GameClosed
            } else {
                row.access()
            },
            None => PlayerFeatureAccess::GameClosed,
        }),
{
    match row {
        Some(row) => {
            let banned = match row.team_enabled {
                Some(enabled) => !enabled,
                None => false,
            };
            if !banned && !is_released {
                return PlayerFeatureAccess::GameClosed;
            }
            player_feature_access(Some(row))
        },
        None => PlayerFeatureAccess::GameClosed,
    }
}

/// The number of a team's state, from what is stored of the team: a ban counts before all else, and
/// having finished before having started.
pub fn team_state_code(is_banned: bool, has_finished: bool, is_locked: bool) -> (r: i16)
    ensures
        r == (if is_banned {
            -1int
        } else if has_finished {
            2
        } else if is_locked {
            1
        } else {
            0
        }),
{
    if is_banned {
        -1
    } else if has_finished {
        2
    } else if is_locked {
        1
    } else {
        0
    }
}

/// Whether a member of the staff may give a ticket back: only one who takes care of it.
pub fn unassign_ticket(assignee: Option<i32>, user_id: i32) -> (r: bool)
    ensures
        r == (assignee == Some(user_id)),
{
    match assignee {
        Some(id) => id == user_id,
        None => false,
    }
}

/// Which tickets of a game the staff asks for.
#[derive(Debug, Clone, Copy, PartialEq, Eq, Structural)]
pub struct StaffTicketFilter {
    /// All tickets by 0, those of puzzles by 1, conversations by 2.
    pub kind: i32,
    pub state: Option<i16>,
    /// All tickets by 0, those in which the team wrote last by 1, the staff by 2.
    pub waiting_for: i32,
    /// All tickets by 0, those of the user by 1, those of nobody by 2.
    pub assignee_filter: i32,
    pub user_id: i32,
    pub puzzle_id: Option<i32>,
    pub team_id: Option<i32>,
}

impl StaffTicketFilter {
    /// Whether a ticket is asked for.
    pub open spec fn takes(self, row: TicketRow) -> bool {
        &&& self.kind == 0 || (self.kind == 1 && row.puzzle.id is Some) || (self.kind == 2
            && row.puzzle.id is None)
        &&& self.state matches Some(state) ==> row.state == state
        &&& self.waiting_for == 0 || (self.waiting_for == 1 && row.last_by == Some(0i16)) || (
        self.waiting_for == 2 && row.last_by == Some(1i16))
        &&& self.assignee_filter == 0 || (self.assignee_filter == 1 && row.assignee.id == Some(
            self.user_id,
        )) || (self.assignee_filter == 2 && row.assignee.id is None)
        &&& self.puzzle_id is Some ==> row.puzzle.id == self.puzzle_id
        &&& self.team_id matches Some(id) ==> row.team_id == id
    }

    fn accepts(&self, row: &TicketRow) -> (r: bool)
        ensures
            r == self.takes(*row),
    {
        let kind = self.kind == 0 || (self.kind == 1 && row.puzzle.id.is_some()) || (self.kind == 2
            && row.puzzle.id.is_none());
        let state = match self.state {
            Some(state) => row.state == state,
            None => true,
        };
        let last_by: i16 = match row.last_by {
            Some(code) => code,
            None => -1,
        };
        let waiting = self.waiting_for == 0 || (self.waiting_for == 1 && last_by == 0) || (
        self.waiting_for == 2 && last_by == 1);
        let mine = match row.assignee.id {
            Some(id) => id == self.user_id,
            None => false,
        };
        let assignee = self.assignee_filter == 0 || (self.assignee_filter == 1 && mine) || (
        self.assignee_filter == 2 && row.assignee.id.is_none());
        let puzzle = match self.puzzle_id {
            Some(id) => match row.puzzle.id {
                Some(own) => own == id,
                None => false,
            },
            None => true,
        };
        let team = match self.team_id {
            Some(id) => row.team_id == id,
            None => true,
        };
        kind && state && waiting && assignee && puzzle && team
    }
}

/// Whether a ticket is listed before another: its last message is younger; tickets without messages
/// come last, and among tickets of one time the one with the higher number comes first.
pub open spec fn listed_before(a: TicketRow, b: TicketRow) -> bool {
    match (a.last_at, b.last_at) {
        (Some(x), Some(y)) => x > y || (x == y && a.id > b.id),
        (Some(_), None) => true,
        (None, Some(_)) => false,
        (None, None) => a.id > b.id,
    }
}

/// Of two different tickets one is listed before the other, and the order goes from one ticket to
/// the next.
pub proof fn tickets_are_strictly_ordered(a: TicketRow, b: TicketRow, c: TicketRow)
    ensures
        !listed_before(a, a),
        listed_before(a, b) ==> !listed_before(b, a),
        listed_before(a, b) && listed_before(b, c) ==> listed_before(a, c),
        a.id != b.id ==> listed_before(a, b) || listed_before(b, a),
{
}

fn is_listed_before(a: &TicketRow, b: &TicketRow) -> (r: bool)
    ensures
        r == listed_before(*a, *b),
{
    match (a.last_at, b.last_at) {
        (Some(x), Some(y)) => x > y || (x == y && a.id > b.id),
        (Some(_), None) => true,
        (None, Some(_)) => false,
        (None, None) => a.id > b.id,
    }
}

/// Where a ticket goes in a list: behind the last one that it does not come before.
pub open spec fn place(list: Seq<TicketRow>, row: TicketRow) -> int
    decreases list.len(),
{
    if list.len() == 0 {
        0
    } else if listed_before(row, list.last()) {
        place(list.drop_last(), row)
    } else {
        list.len() as int
    }
}

/// The tickets that are asked for, in the order of the list.
pub open spec fn listed(rows: Seq<TicketRow>, filter: StaffTicketFilter) -> Seq<TicketRow>
    decreases rows.len(),
{
    if rows.len() == 0 {
        Seq::empty()
    } else {
        let list = listed(rows.drop_last(), filter);
        if filter.takes(rows.last()) {
            list.insert(place(list, rows.last()), rows.last())
        } else {
            list
        }
    }
}

fn find_place(list: &Vec<TicketRow>, row: &TicketRow) -> (r: usize)
    ensures
        r == place(list@, *row),
        r <= list@.len(),
{
    let mut i: usize = list.len();
    assert(list@.take(i as int) =~= list@);
    while i > 0
        invariant
            i <= list@.len(),
            place(list@, *row) == place(list@.take(i as int), *row),
        decreases i,
    {
        assert(list@.take(i as int).last() == list@[i - 1]);
        assert(list@.take(i as int).drop_last() =~= list@.take(i - 1));
        if !is_listed_before(row, &list[i - 1]) {
            return i;
        }
        i -= 1;
    }
    0
}

pub open spec fn in_list_order(list: Seq<TicketRow>) -> bool {
    forall|i: int, j: int|
        0 <= i < j < list.len() ==> !listed_before(#[trigger] list[j], #[trigger] list[i])
}

proof fn lemma_place(list: Seq<TicketRow>, row: TicketRow)
    requires
        in_list_order(list),
    ensures
        0 <= place(list, row) <= list.len(),
        forall|k: int| 0 <= k < place(list, row) ==> !listed_before(row, #[trigger] list[k]),
        forall|k: int| place(list, row) <= k < list.len() ==> listed_before(row, #[trigger] list[k]),
    decreases list.len(),
{
    if list.len() > 0 {
        let rest = list.drop_last();
        assert forall|i: int, j: int| 0 <= i < j < rest.len() implies !listed_before(
            #[trigger] rest[j],
            #[trigger] rest[i],
        ) by {
            assert(rest[i] == list[i] && rest[j] == list[j]);
        }
        lemma_place(rest, row);
        let p = place(list, row);
        assert forall|k: int| p <= k < list.len() implies listed_before(row, #[trigger] list[k]) by {
            if k < rest.len() {
                assert(rest[k] == list[k]);
            }
        }
        assert forall|k: int| 0 <= k < p implies !listed_before(row, #[trigger] list[k]) by {
            if listed_before(row, list.last()) {
                assert(rest[k] == list[k]);
            } else if k < list.len() - 1 {
                assert(!listed_before(list[list.len() - 1], list[k]));
                tickets_are_strictly_ordered(row, list[k], list.last());
                tickets_are_strictly_ordered(row, list.last(), list[k]);
            }
        }
    }
}

/// The list holds the tickets that are asked for, each as often as it is stored, and is in order.
pub proof fn lists_are_in_order(rows: Seq<TicketRow>, filter: StaffTicketFilter)
    ensures
        in_list_order(listed(rows, filter)),
        forall|i: int|
            0 <= i < listed(rows, filter).len() ==> filter.takes(
                #[trigger] listed(rows, filter)[i],
            ),
        forall|i: int|
            0 <= i < rows.len() && filter.takes(#[trigger] rows[i]) ==> listed(
                rows,
                filter,
            ).contains(rows[i]),
        listed(rows, filter).len() <= rows.len(),
    decreases rows.len(),
{
    if rows.len() > 0 {
        let rest = rows.drop_last();
        let row = rows.last();
        let before = listed(rest, filter);
        let list = listed(rows, filter);
        lists_are_in_order(rest, filter);
        if filter.takes(row) {
            lemma_place(before, row);
            let p = place(before, row);
            assert forall|i: int, j: int| 0 <= i < j < list.len() implies !listed_before(
                #[trigger] list[j],
                #[trigger] list[i],
            ) by {
                if j < p {
                    assert(list[i] == before[i] && list[j] == before[j]);
                } else if i > p {
                    assert(list[i] == before[i - 1] && list[j] == before[j - 1]);
                } else if j == p {
                    assert(list[i] == before[i]);
                } else if i == p {
                    assert(list[j] == before[j - 1]);
                    tickets_are_strictly_ordered(row, before[j - 1], row);
                } else {
                    assert(list[i] == before[i] && list[j] == before[j - 1]);
                }
            }
            assert forall|i: int| 0 <= i < list.len() implies filter.takes(#[trigger] list[i]) by {
                if i < p {
                    assert(list[i] == before[i]);
                } else if i > p {
                    assert(list[i] == before[i - 1]);
                }
            }
            assert(list[p] == row);
        }
        assert forall|i: int| 0 <= i < rows.len() && filter.takes(
            #[trigger] rows[i],
        ) implies list.contains(rows[i]) by {
            if i < rest.len() {
                assert(rest[i] == rows[i]);
                assert(before.contains(rest[i]));
                let k = choose|k: int| 0 <= k < before.len() && before[k] == rest[i];
                if filter.takes(row) {
                    lemma_place(before, row);
                    let p = place(before, row);
                    if k < p {
                        assert(list[k] == before[k]);
                    } else {
                        assert(list[k + 1] == before[k]);
                    }
                } else {
                    assert(list[k] == before[k]);
                }
            }
        }
    }
}

/// A page of the list of tickets of a game, each with its team, whose balances are left out.
pub fn list_staff_tickets(
    rows: Vec<TicketRow>,
    filter: &StaffTicketFilter,
    limit: usize,
    offset: usize,
) -> (r: Vec<TicketSummary>)
    ensures
        ({
            let list = listed(rows@, *filter);
            &&& r@.len() == (if list.len() <= offset {
                0
            } else if list.len() - offset > limit {
                limit as int
            } else {
                list.len() - offset
            })
            &&& forall|i: int|
                0 <= i < r@.len() ==> ticket::summarises(
                    #[trigger] r@[i],
                    list[offset + i],
                    true,
                    Seq::empty(),
                )
        }),
{
    let ghost all = rows@;
    let mut list: Vec<TicketRow> = Vec::new();
    for row in it: rows
        invariant
            it.seq() == all,
            list@ == listed(all.take(it.index()), *filter),
    {
        proof {
            assert(all.take(it.index() + 1).drop_last() =~= all.take(it.index()));
            assert(all.take(it.index() + 1).last() == row);
        }
        if filter.accepts(&row) {
            let at = find_place(&list, &row);
            list.insert(at, row);
        }
    }
    assert(all.take(all.len() as int) =~= all);
    let ghost found = list@;
    let n: usize = list.len();
    let mut shown: Vec<TicketSummary> = Vec::new();
    let mut passed: usize = 0;
    for row in it: list
        invariant
            it.seq() == found,
            found.len() == n,
            passed == it.index() <= n,
            shown@.len() == (if passed <= offset {
                0
            } else if passed - offset > limit {
                limit as int
            } else {
                passed - offset
            }),
            forall|i: int|
                0 <= i < shown@.len() ==> ticket::summarises(
                    #[trigger] shown@[i],
                    found[offset + i],
                    true,
                    Seq::empty(),
                ),
    {
        assert(row == found[it.index()]);
        if passed >= offset && shown.len() < limit {
            shown.push(get_ticket_summary(row, true, Vec::new()));
        }
        passed += 1;
    }
    shown
}

proof fn lemma_listed_from(rows: Seq<TicketRow>, filter: StaffTicketFilter)
    ensures
        forall|i: int|
            0 <= i < listed(rows, filter).len() ==> rows.contains(#[trigger] listed(rows, filter)[i]),
    decreases rows.len(),
{
    if rows.len() > 0 {
        let rest = rows.drop_last();
        let row = rows[rows.len() - 1];
        let before = listed(rest, filter);
        let list = listed(rows, filter);
        lemma_listed_from(rest, filter);
        lists_are_in_order(rest, filter);
        lemma_place(before, row);
        let p = place(before, row);
        assert forall|i: int| 0 <= i < list.len() implies rows.contains(#[trigger] list[i]) by {
            assert(rows[rows.len() - 1] == row);
            let old = if list.len() == before.len() || i < p {
                i
            } else {
                i - 1
            };
            if list.len() == before.len() || i != p {
                assert(list[i] == before[old]);
                let k = choose|k: int| 0 <= k < rest.len() && rest[k] == before[old];
                assert(rows[k] == rest[k]);
            } else {
                assert(list[p] == row);
            }
        }
    }
}

/// Every ticket that is listed is one of those that are stored, and meets each filter that is set:
/// on puzzles and conversations, on the state, on who wrote last, on who takes care of it, on the
/// puzzle and on the team.
pub proof fn listed_tickets_meet_every_filter(
    rows: Seq<TicketRow>,
    filter: StaffTicketFilter,
    i: int,
)
    requires
        0 <= i < listed(rows, filter).len(),
    ensures
        ({
            let row = listed(rows, filter)[i];
            &&& rows.contains(row)
            &&& filter.kind == 1 ==> row.puzzle.id is Some
            &&& filter.kind == 2 ==> row.puzzle.id is None
            &&& 0 <= filter.kind <= 2
            &&& filter.state matches Some(state) ==> row.state == state
            &&& filter.waiting_for == 1 ==> row.last_by == Some(0i16)
            &&& filter.waiting_for == 2 ==> row.last_by == Some(1i16)
            &&& 0 <= filter.waiting_for <= 2
            &&& filter.assignee_filter == 1 ==> row.assignee.id == Some(filter.user_id)
            &&& filter.assignee_filter == 2 ==> row.assignee.id is None
            &&& 0 <= filter.assignee_filter <= 2
            &&& filter.puzzle_id matches Some(id) ==> row.puzzle.id == Some(id)
            &&& filter.team_id matches Some(id) ==> row.team_id == id
        }),
{
    lists_are_in_order(rows, filter);
    lemma_listed_from(rows, filter);
    assert(filter.takes(listed(rows, filter)[i]));
}

/// A ticket that is stored and meets each filter that is set is listed.
pub proof fn tickets_that_meet_every_filter_are_listed(
    rows: Seq<TicketRow>,
    filter: StaffTicketFilter,
    i: int,
)
    requires
        0 <= i < rows.len(),
        filter.kind == 0 || (filter.kind == 1 && rows[i].puzzle.id is Some) || (filter.kind == 2
            && rows[i].puzzle.id is None),
        filter.state matches Some(state) ==> rows[i].state == state,
        filter.waiting_for == 0 || (filter.waiting_for == 1 && rows[i].last_by == Some(0i16)) || (
        filter.waiting_for == 2 && rows[i].last_by == Some(1i16)),
        filter.assignee_filter == 0 || (filter.assignee_filter == 1 && rows[i].assignee.id == Some(
            filter.user_id,
        )) || (filter.assignee_filter == 2 && rows[i].assignee.id is None),
        filter.puzzle_id matches Some(id) ==> rows[i].puzzle.id == Some(id),
        filter.team_id matches Some(id) ==> rows[i].team_id == id,
    ensures
        listed(rows, filter).contains(rows[i]),
{
    lists_are_in_order(rows, filter);
}

/// The list starts with the tickets that were written in last: no ticket without messages stands
/// before one with messages, none with an older last message before one with a younger, and among
/// tickets of one time the numbers fall.
pub proof fn younger_tickets_come_first(
    rows: Seq<TicketRow>,
    filter: StaffTicketFilter,
    i: int,
    j: int,
)
    requires
        0 <= i < j < listed(rows, filter).len(),
    ensures
        ({
            let (a, b) = (listed(rows, filter)[i], listed(rows, filter)[j]);
            &&& b.last_at is Some ==> a.last_at is Some
            &&& a.last_at is Some && b.last_at is Some ==> a.last_at->0 >= b.last_at->0
            &&& a.last_at == b.last_at ==> a.id >= b.id
        }),
{
    lists_are_in_order(rows, filter);
    assert(!listed_before(listed(rows, filter)[j], listed(rows, filter)[i]));
}

/// No ticket is left out or doubled: a ticket that meets the filters makes the list longer by one,
/// and any other leaves it as it was.
pub proof fn each_ticket_is_listed_once(
    rows: Seq<TicketRow>,
    row: TicketRow,
    filter: StaffTicketFilter,
)
    ensures
        listed(Seq::empty(), filter).len() == 0,
        listed(rows.push(row), filter).len() == listed(rows, filter).len() || listed(
            rows.push(row),
            filter,
        ).len() == listed(rows, filter).len() + 1,
        filter.team_id is Some && filter.team_id->0 != row.team_id ==> listed(
            rows.push(row),
            filter,
        ) == listed(rows, filter),
        filter.kind == 0 && filter.state is None && filter.waiting_for == 0
            && filter.assignee_filter == 0 && filter.puzzle_id is None && filter.team_id is None
            ==> listed(rows.push(row), filter).len() == listed(rows, filter).len() + 1,
{
    assert(rows.push(row).drop_last() =~= rows);
    lists_are_in_order(rows, filter);
    lemma_place(listed(rows, filter), row);
}

/// How far a feature is open to a team: not at all where it was taken from the team, else as is stored
/// for the game, and fully where nothing is stored.
pub proof fn features_are_open_unless_stored(row: FeatureAccessRow)
    ensures
        row.team_enabled == Some(false) ==> row.access() == PlayerFeatureAccess::TeamFeatureBanned,
        row.team_enabled != Some(false) && row.game_state is None ==> row.access()
            == PlayerFeatureAccess::Open,
        row.team_enabled != Some(false) && row.game_state == Some(2i16) ==> row.access()
            == PlayerFeatureAccess::Open,
        row.team_enabled != Some(false) && row.game_state == Some(1i16) ==> row.access()
            == PlayerFeatureAccess::ExistingOnly,
        row.team_enabled != Some(false) && row.game_state == Some(0i16) ==> row.access()
            == PlayerFeatureAccess::GameClosed,
{
}

} // verus!
