//! When a team may open a ticket about a puzzle, and when it closes by itself.
use vstd::prelude::*;

use crate::clock::Timestamp;
use crate::db::ticket;
use crate::db::ticket::{PlayerFeatureAccess, TicketAvailability, TicketCooldownRow};
use crate::error::{fault, RbInternalError};
use crate::model::game::RbTicketState;

verus! {

/// How a puzzle stands to a team: its state, and since when the team has it.
#[derive(Debug, Clone, Copy, PartialEq, Eq, Structural)]
pub struct OpenedPuzzle {
    pub state: i16,
    pub opened_at: Timestamp,
}

/// What a puzzle says about tickets, and how it stands to a team that has it.
#[derive(Debug, Clone, Copy, PartialEq, Eq, Structural)]
pub struct TicketTerms {
    pub ticket_enabled: bool,
    /// How long a team must have had the puzzle, in seconds.
    pub ticket_cooldown: i32,
    pub release_at: Timestamp,
    pub team: Option<OpenedPuzzle>,
}

impl TicketTerms {
    /// From when on a team that has the puzzle may open a ticket: a while after the puzzle was both
    /// released and open to the team.
    pub open spec fn till(self) -> int {
        (if self.team->0.opened_at >= self.release_at {
            self.team->0.opened_at
        } else {
            self.release_at
        }) + self.ticket_cooldown * 1_000_000
    }

    /// Whether the puzzle is open to the team.
    pub open spec fn is_open(self) -> bool {
        self.team matches Some(team) && team.state >= 0
    }

    /// Whether the team has had the puzzle for long enough.
    pub open spec fn is_ready(self, now: Timestamp) -> bool {
        self.is_open() && self.till() <= now
    }

    fn wait_till(&self, team: OpenedPuzzle) -> (r: i128)
        requires
            self.team == Some(team),
        ensures
            r == self.till(),
    {
        let since: Timestamp = if team.opened_at >= self.release_at {
            team.opened_at
        } else {
            self.release_at
        };
        since as i128 + self.ticket_cooldown as i128 * 1_000_000
    }
}

/// What decides whether a ticket is opened; nothing where the puzzle is not there or not released.
pub open spec fn availability_at(terms: Option<TicketTerms>, now: Timestamp) -> Option<
    TicketAvailability,
> {
    match terms {
        Some(terms) if terms.release_at <= now => Some(
            TicketAvailability {
                ticket_enabled: terms.ticket_enabled,
                cooldown_ready: Some(terms.is_ready(now)),
            },
        ),
        _ => None,
    }
}

/// What decides whether a ticket is opened.
pub fn ticket_availability(terms: Option<TicketTerms>, now: Timestamp) -> (r: Option<
    TicketAvailability,
>)
    ensures
        r == availability_at(terms, now),
{
    match terms {
        Some(terms) => {
            if terms.release_at > now {
                return None;
            }
            let ready = match terms.team {
                Some(team) => team.state >= 0 && terms.wait_till(team) <= now as i128,
                None => false,
            };
            Some(
                TicketAvailability {
                    ticket_enabled: terms.ticket_enabled,
                    cooldown_ready: Some(ready),
                },
            )
        },
        None => None,
    }
}

/// Whether a team sees the puzzle.
pub open spec fn is_seen(terms: Option<TicketTerms>, now: Timestamp) -> bool {
    terms matches Some(terms) && terms.is_open() && terms.release_at <= now
}

/// Whether a team is told when it may open a ticket: it sees the puzzle, and the puzzle has tickets.
pub open spec fn has_wait(terms: Option<TicketTerms>, now: Timestamp) -> bool {
    is_seen(terms, now) && terms->0.ticket_enabled
}

/// What a team is told about tickets of a puzzle: nothing of a puzzle that it does not see.
pub open spec fn cooldown_at(terms: Option<TicketTerms>, now: Timestamp) -> TicketCooldownRow {
    TicketCooldownRow {
        ticket_enabled: if is_seen(terms, now) {
            Some(terms->0.ticket_enabled)
        } else {
            None
        },
        ready: Some(has_wait(terms, now) && terms->0.is_ready(now)),
        cooldown_till: if has_wait(terms, now) {
            Some(terms->0.till() as i64)
        } else {
            None
        },
    }
}

/// What a team is told about tickets of a puzzle; the time to wait till must fit.
pub fn ticket_cooldown(terms: Option<TicketTerms>, now: Timestamp) -> (r: Result<
    TicketCooldownRow,
    RbInternalError,
>)
    ensures
        match r {
            Ok(row) => {
                &&& row == cooldown_at(terms, now)
                &&& has_wait(terms, now) ==> i64::MIN <= terms->0.till() <= i64::MAX
            },
            Err(e) => {
                &&& has_wait(terms, now)
                &&& !(i64::MIN <= terms->0.till() <= i64::MAX)
                &&& e.text() == "timestamp out of range"@
            },
        },
{
    let none = TicketCooldownRow { ticket_enabled: None, ready: Some(false), cooldown_till: None };
    let terms = match terms {
        Some(terms) => terms,
        None => {
            return Ok(none);
        },
    };
    let team = match terms.team {
        Some(team) => team,
        None => {
            return Ok(none);
        },
    };
    if team.state < 0 || terms.release_at > now {
        return Ok(none);
    }
    if !terms.ticket_enabled {
        return Ok(
            TicketCooldownRow {
                ticket_enabled: Some(false),
                ready: Some(false),
                cooldown_till: None,
            },
        );
    }
    let till = terms.wait_till(team);
    if till < i64::MIN as i128 || till > i64::MAX as i128 {
        return Err(fault("timestamp out of range"));
    }
    Ok(
        TicketCooldownRow {
            ticket_enabled: Some(true),
            ready: Some(till <= now as i128),
            cooldown_till: Some(till as i64),
        },
    )
}

/// A ticket that a team is told it may open opens at that time.
pub proof fn told_tickets_open(
    terms: Option<TicketTerms>,
    open_puzzles: Seq<i32>,
    puzzle_id: i32,
    access: PlayerFeatureAccess,
    now: Timestamp,
)
    requires
        ticket::open_block_of(open_puzzles, puzzle_id, cooldown_at(terms, now), access, false)
            is Clear,
    ensures
        open_puzzles.len() == 0,
        ticket::open_refusal(access) is None,
        availability_at(terms, now) == Some(
            TicketAvailability { ticket_enabled: true, cooldown_ready: Some(true) },
        ),
{
}

/// A team that must wait for a ticket is told till when, and may open one from then on.
pub proof fn waiting_ends(terms: TicketTerms, now: Timestamp, later: Timestamp)
    requires
        has_wait(Some(terms), now),
        !terms.is_ready(now),
        i64::MIN <= terms.till() <= i64::MAX,
        later >= now,
    ensures
        cooldown_at(Some(terms), now).cooldown_till == Some(terms.till() as i64),
        cooldown_at(Some(terms), now).cooldown_till->0 > now,
        cooldown_at(Some(terms), later).ready == Some(
            later >= cooldown_at(Some(terms), now).cooldown_till->0,
        ),
{
}

/// A ticket, and what it is about.
#[derive(Debug, Clone, Copy, PartialEq, Eq, Structural)]
pub struct TicketPlace {
    pub id: i32,
    pub state: i16,
    pub team_id: i32,
    pub puzzle_id: Option<i32>,
}

impl TicketPlace {
    /// Whether the ticket closes when a team solves a puzzle.
    pub open spec fn closes(self, team_id: i32, puzzle_id: i32) -> bool {
        self.team_id == team_id && self.puzzle_id == Some(puzzle_id) && self.state
            != RbTicketState::Closed.code_of()
    }
}

/// The tickets that close when a team solves a puzzle.
pub open spec fn closed_on_solve(tickets: Seq<TicketPlace>, team_id: i32, puzzle_id: i32) -> Seq<i32>
    decreases tickets.len(),
{
    if tickets.len() == 0 {
        Seq::empty()
    } else {
        let rest = closed_on_solve(tickets.drop_last(), team_id, puzzle_id);
        if tickets.last().closes(team_id, puzzle_id) {
            rest.push(tickets.last().id)
        } else {
            rest
        }
    }
}

/// Which tickets close when a team solves a puzzle: its own about the puzzle that are not closed.
pub fn close_puzzle_tickets_on_solve(tickets: &Vec<TicketPlace>, team_id: i32, puzzle_id: i32) -> (r:
    Vec<i32>)
    ensures
        r@ == closed_on_solve(tickets@, team_id, puzzle_id),
{
    let closed: i16 = RbTicketState::Closed.into();
    let mut ids: Vec<i32> = Vec::new();
    let mut i: usize = 0;
    while i < tickets.len()
        invariant
            i <= tickets@.len(),
            closed == RbTicketState::Closed.code_of(),
            ids@ == closed_on_solve(tickets@.take(i as int), team_id, puzzle_id),
        decreases tickets@.len() - i,
    {
        let ticket = tickets[i];
        assert(tickets@.take(i + 1).drop_last() =~= tickets@.take(i as int));
        assert(tickets@.take(i + 1).last() == ticket);
        let about = match ticket.puzzle_id {
            Some(id) => id == puzzle_id,
            None => false,
        };
        if ticket.team_id == team_id && about && ticket.state != closed {
            ids.push(ticket.id);
        }
        i += 1;
    }
    assert(tickets@.take(i as int) =~= tickets@);
    ids
}

/// The tickets after a team has solved a puzzle.
pub open spec fn after_solve(tickets: Seq<TicketPlace>, team_id: i32, puzzle_id: i32) -> Seq<
    TicketPlace,
> {
    tickets.map_values(
        |ticket: TicketPlace|
            if ticket.closes(team_id, puzzle_id) {
                TicketPlace { state: RbTicketState::Closed.code_of(), ..ticket }
            } else {
                ticket
            },
    )
}

/// A solved puzzle leaves no ticket of the team about it open, and closes no other.
pub proof fn solved_puzzles_have_no_open_tickets(
    tickets: Seq<TicketPlace>,
    team_id: i32,
    puzzle_id: i32,
)
    ensures
        closed_on_solve(after_solve(tickets, team_id, puzzle_id), team_id, puzzle_id) == Seq::<
            i32,
        >::empty(),
        forall|i: int|
            0 <= i < tickets.len() && ((#[trigger] tickets[i]).team_id != team_id
                || tickets[i].puzzle_id != Some(puzzle_id)) ==> after_solve(
                tickets,
                team_id,
                puzzle_id,
            )[i] == tickets[i],
    decreases tickets.len(),
{
    if tickets.len() > 0 {
        solved_puzzles_have_no_open_tickets(tickets.drop_last(), team_id, puzzle_id);
        assert(after_solve(tickets, team_id, puzzle_id).drop_last() =~= after_solve(
            tickets.drop_last(),
            team_id,
            puzzle_id,
        ));
    }
}

/// The wait for a ticket ends as many seconds as are asked for after the puzzle was opened to the team
/// or was released, whichever was later.
pub proof fn waits_start_when_a_puzzle_opens(terms: TicketTerms, team: OpenedPuzzle, now: Timestamp)
    requires
        terms.team == Some(team),
    ensures
        terms.till() - terms.ticket_cooldown * 1_000_000 >= team.opened_at,
        terms.till() - terms.ticket_cooldown * 1_000_000 >= terms.release_at,
        terms.till() - terms.ticket_cooldown * 1_000_000 == team.opened_at || terms.till()
            - terms.ticket_cooldown * 1_000_000 == terms.release_at,
        terms.is_open() <==> team.state >= 0,
        terms.is_ready(now) <==> team.state >= 0 && now >= team.opened_at + terms.ticket_cooldown
            * 1_000_000 && now >= terms.release_at + terms.ticket_cooldown * 1_000_000,
{
}

/// Tickets of a puzzle can be had exactly once it is released, by what its terms say; a team to which
/// it is not open is not ready.
pub proof fn tickets_are_had_of_released_puzzles(terms: TicketTerms, now: Timestamp)
    ensures
        availability_at(None, now) is None,
        availability_at(Some(terms), now) is Some <==> terms.release_at <= now,
        availability_at(Some(terms), now) matches Some(told) ==> told.ticket_enabled
            == terms.ticket_enabled && (told.cooldown_ready == Some(true) <==> terms.team is Some
            && terms.team->0.state >= 0 && terms.till() <= now) && told.cooldown_ready is Some,
        terms.team is None ==> !terms.is_open() && !terms.is_ready(now),
{
}

/// What is told of the wait: whether the puzzle has tickets where it is open to the team and released,
/// and until when the team waits only where it has.
pub proof fn waits_are_told_of_open_puzzles(terms: TicketTerms, now: Timestamp)
    ensures
        ({
            let told = cooldown_at(Some(terms), now);
            let seen = terms.team is Some && terms.team->0.state >= 0 && terms.release_at <= now;
            &&& seen ==> told.ticket_enabled == Some(terms.ticket_enabled)
            &&& !seen ==> told.ticket_enabled is None
            &&& told.cooldown_till is Some <==> seen && terms.ticket_enabled
            &&& told.cooldown_till is Some && i64::MIN <= terms.till() <= i64::MAX
                ==> told.cooldown_till->0 == terms.till()
            &&& told.ready == Some(true) <==> seen && terms.ticket_enabled && terms.till() <= now
            &&& told.ready is Some
        }),
        cooldown_at(None, now).ticket_enabled is None,
        cooldown_at(None, now).ready == Some(false),
        cooldown_at(None, now).cooldown_till is None,
{
}

/// Solving a puzzle closes the team's tickets of that puzzle that are not closed yet, and no others.
pub proof fn solving_closes_tickets_of_the_puzzle(
    tickets: Seq<TicketPlace>,
    ticket: TicketPlace,
    team_id: i32,
    puzzle_id: i32,
)
    ensures
        closed_on_solve(Seq::empty(), team_id, puzzle_id).len() == 0,
        ({
            let before = closed_on_solve(tickets, team_id, puzzle_id);
            let after = closed_on_solve(tickets.push(ticket), team_id, puzzle_id);
            let closes = ticket.team_id == team_id && ticket.puzzle_id == Some(puzzle_id)
                && ticket.state != RbTicketState::Closed.code_of();
            &&& closes ==> after == before.push(ticket.id)
            &&& !closes ==> after == before
        }),
{
    assert(tickets.push(ticket).drop_last() =~= tickets);
}

} // verus!
