//! When puzzles take answers, and when hints open.
use vstd::prelude::*;

use crate::clock::Timestamp;
use crate::db::puzzle::hint::RbHintShowData;
use crate::error::{fault, RbInternalError};
use crate::game::judge;

verus! {

/// Whether a team sees a puzzle: it is not locked, it is released, and the team is not banned.
pub fn has_access(state: i16, release_at: Timestamp, is_banned: bool, now: Timestamp) -> (r: bool)
    ensures
        r == (state >= 0 && release_at <= now && !is_banned),
{
    state >= 0 && release_at <= now && !is_banned
}

/// Whether a team may answer now: it does not wait, and has given fewer wrong answers than it may.
pub open spec fn answers_are_left(
    cooldown_till: Option<Timestamp>,
    max_submit: Option<i32>,
    allowance: i32,
    failures: i64,
    now: Timestamp,
) -> bool {
    &&& cooldown_till matches Some(till) ==> till <= now
    &&& max_submit matches Some(max) ==> failures < max + allowance
}

/// Whether a team may answer at a time: its cooldown is over, and it has given fewer wrong answers
/// than the puzzle and the team's own allowance add up to. That sum must fit.
pub fn may_answer(
    cooldown_till: Option<Timestamp>,
    max_submit: Option<i32>,
    allowance: i32,
    failures: i64,
    now: Timestamp,
) -> (r: Result<bool, RbInternalError>)
    ensures
        match max_submit {
            Some(max) if !(i32::MIN <= max + allowance <= i32::MAX) => r matches Err(e) && e.text()
                == "integer out of range"@,
            _ => r == Ok::<bool, RbInternalError>(
                (cooldown_till matches Some(till) ==> till <= now) && (max_submit matches Some(max)
                    ==> failures < max + allowance),
            ),
        },
        r matches Ok(may) ==> may == answers_are_left(
            cooldown_till,
            max_submit,
            allowance,
            failures,
            now,
        ),
{
    let cooled = match cooldown_till {
        Some(till) => till <= now,
        None => true,
    };
    match max_submit {
        None => Ok(cooled),
        Some(max) => match max.checked_add(allowance) {
            None => Err(fault("integer out of range")),
            Some(most) => Ok(cooled && failures < most as i64),
        },
    }
}

/// A hint, and what decides when a team may have it.
#[derive(Debug)]
pub struct HintRow {
    pub id: i32,
    pub title: String,
    pub title_hidden: bool,
    pub cooldown: i32,
    pub cooldown_after_enable: bool,
    pub has_condition: bool,
    pub cost_id: Option<i32>,
    pub cost_amount: i64,
    /// When the condition was first met.
    pub enabled_at: Option<Timestamp>,
    /// When the team bought the hint.
    pub purchased_at: Option<Timestamp>,
    /// The number of the puzzle's state for the team.
    pub state: i16,
    /// When the puzzle opened to the team.
    pub opened_at: Timestamp,
    pub release_at: Timestamp,
}

impl HintRow {
    pub open spec fn released(self, now: Timestamp) -> bool {
        self.state >= 0 && self.release_at <= now
    }

    pub open spec fn enabled(self) -> bool {
        !self.has_condition || self.enabled_at is Some
    }

    /// When the cooldown starts: when the condition was met, or when the puzzle was both open and
    /// released.
    pub open spec fn start(self) -> Option<Timestamp> {
        if self.cooldown_after_enable {
            self.enabled_at
        } else if self.opened_at >= self.release_at {
            Some(self.opened_at)
        } else {
            Some(self.release_at)
        }
    }

    /// When the cooldown is shown to start; a hint that was bought is not waited for.
    pub open spec fn shown_start(self) -> Option<Timestamp> {
        if self.cooldown_after_enable && self.enabled_at is None {
            self.purchased_at
        } else {
            self.start()
        }
    }

    pub open spec fn wait(self) -> int {
        self.cooldown * 1_000_000
    }

    /// Whether a team is told of the hint.
    pub open spec fn listed(self, now: Timestamp) -> bool {
        self.released(now) && (self.enabled() || self.purchased_at is Some)
    }

    /// Whether a team may buy the hint.
    pub open spec fn offered(self, now: Timestamp) -> bool {
        &&& self.released(now)
        &&& self.purchased_at is None
        &&& self.enabled()
        &&& self.start() matches Some(at) && at + self.wait() <= now
    }

    /// Whether the title is kept back.
    pub open spec fn keeps_title(self, now: Timestamp) -> bool {
        self.title_hidden && (self.shown_start() matches Some(at) && now < at + self.wait())
    }

    /// Whether a hint can be shown: it is known when it opens, and that time fits.
    pub open spec fn showable(self) -> bool {
        self.shown_start() matches Some(at) && i64::MIN <= at + self.wait() <= i64::MAX
    }

    fn find_start(&self) -> (r: Option<Timestamp>)
        ensures
            r == self.start(),
    {
        if self.cooldown_after_enable {
            self.enabled_at
        } else if self.opened_at >= self.release_at {
            Some(self.opened_at)
        } else {
            Some(self.release_at)
        }
    }

    fn find_shown_start(&self) -> (r: Option<Timestamp>)
        ensures
            r == self.shown_start(),
    {
        if self.cooldown_after_enable && self.enabled_at.is_none() {
            self.purchased_at
        } else {
            self.find_start()
        }
    }

    fn is_released(&self, now: Timestamp) -> (r: bool)
        ensures
            r == self.released(now),
    {
        self.state >= 0 && self.release_at <= now
    }

    fn is_enabled(&self) -> (r: bool)
        ensures
            r == self.enabled(),
    {
        !self.has_condition || self.enabled_at.is_some()
    }

    /// Whether a team may buy the hint.
    pub fn is_offered(&self, now: Timestamp) -> (r: bool)
        ensures
            r == self.offered(now),
    {
        if !self.is_released(now) || self.purchased_at.is_some() || !self.is_enabled() {
            return false;
        }
        match self.find_start() {
            Some(at) => (at as i128) + (self.cooldown as i128) * 1_000_000 <= now as i128,
            None => false,
        }
    }

    /// Whether a team is told of the hint.
    pub fn is_listed(&self, now: Timestamp) -> (r: bool)
        ensures
            r == self.listed(now),
    {
        self.is_released(now) && (self.is_enabled() || self.purchased_at.is_some())
    }
}

impl RbHintShowData {
    /// Whether this is how a hint is shown at a time.
    pub open spec fn shows(self, row: HintRow, now: Timestamp) -> bool {
        &&& self.id == row.id
        &&& judge::text_in(self.title) == (if row.keeps_title(now) {
            None
        } else {
            Some(row.title@)
        })
        &&& self.title_hidden == row.title_hidden
        &&& self.cooldown == row.cooldown
        &&& row.shown_start() matches Some(at) && self.available_at == at + row.wait()
        &&& self.cost_id == row.cost_id
        &&& self.cost_amount == row.cost_amount
    }
}

fn show_hint(row: &HintRow, now: Timestamp) -> (r: Result<RbHintShowData, RbInternalError>)
    ensures
        match r {
            Ok(shown) => row.showable() && shown.shows(*row, now),
            Err(e) => !row.showable() && e.text() == "hint has no opening time"@,
        },
{
    let start: Timestamp = match row.find_shown_start() {
        Some(at) => at,
        None => {
            return Err(fault("hint has no opening time"));
        },
    };
    let at: i128 = (start as i128) + (row.cooldown as i128) * 1_000_000;
    if at < i64::MIN as i128 || at > i64::MAX as i128 {
        return Err(fault("hint has no opening time"));
    }
    let available_at: Timestamp = at as i64;
    let title = if row.title_hidden && now < available_at {
        None
    } else {
        Some(row.title.clone())
    };
    Ok(
        RbHintShowData {
            id: row.id,
            title,
            title_hidden: row.title_hidden,
            cooldown: row.cooldown,
            available_at,
            cost_id: row.cost_id,
            cost_amount: row.cost_amount,
        },
    )
}

/// The hints that a team is told of, in their order.
pub open spec fn listed_hints(rows: Seq<HintRow>, now: Timestamp) -> Seq<HintRow>
    decreases rows.len(),
{
    if rows.len() == 0 {
        Seq::empty()
    } else if rows.last().listed(now) {
        listed_hints(rows.drop_last(), now).push(rows.last())
    } else {
        listed_hints(rows.drop_last(), now)
    }
}

pub open spec fn all_showable(rows: Seq<HintRow>) -> bool {
    forall|i: int| 0 <= i < rows.len() ==> (#[trigger] rows[i]).showable()
}

pub open spec fn show_all(shown: Seq<RbHintShowData>, rows: Seq<HintRow>, now: Timestamp) -> bool {
    shown.len() == rows.len() && forall|i: int|
        0 <= i < rows.len() ==> (#[trigger] shown[i]).shows(rows[i], now)
}

proof fn lemma_listed_grow(rows: Seq<HintRow>, n: int, now: Timestamp)
    requires
        0 <= n <= rows.len(),
        !all_showable(listed_hints(rows.take(n), now)),
    ensures
        !all_showable(listed_hints(rows, now)),
    decreases rows.len() - n,
{
    if n < rows.len() {
        let before = listed_hints(rows.take(n), now);
        let after = listed_hints(rows.take(n + 1), now);
        assert(rows.take(n + 1).drop_last() =~= rows.take(n));
        let k = choose|k: int| 0 <= k < before.len() && !(#[trigger] before[k]).showable();
        assert(after[k] == before[k]);
        lemma_listed_grow(rows, n + 1, now);
    } else {
        assert(rows.take(n) =~= rows);
    }
}

/// The hints that a team is told of, as they are shown. It fails where it is not known of one when
/// it opens.
pub fn get_hints_show_for_team(rows: &Vec<HintRow>, now: Timestamp) -> (r: Result<
    Vec<RbHintShowData>,
    RbInternalError,
>)
    ensures
        match r {
            Ok(shown) => {
                &&& all_showable(listed_hints(rows@, now))
                &&& show_all(shown@, listed_hints(rows@, now), now)
            },
            Err(e) => !all_showable(listed_hints(rows@, now)) && e.text()
                == "hint has no opening time"@,
        },
{
    let mut shown: Vec<RbHintShowData> = Vec::new();
    let mut i: usize = 0;
    while i < rows.len()
        invariant
            i <= rows@.len(),
            all_showable(listed_hints(rows@.take(i as int), now)),
            show_all(shown@, listed_hints(rows@.take(i as int), now), now),
        decreases rows@.len() - i,
    {
        let row = &rows[i];
        let ghost before = listed_hints(rows@.take(i as int), now);
        let ghost after = listed_hints(rows@.take(i + 1), now);
        proof {
            assert(rows@.take(i + 1).drop_last() =~= rows@.take(i as int));
            assert(rows@.take(i + 1).last() == *row);
        }
        if row.is_listed(now) {
            assert(after == before.push(*row));
            match show_hint(row, now) {
                Ok(hint) => {
                    shown.push(hint);
                    assert forall|k: int| 0 <= k < after.len() implies (
                    #[trigger] after[k]).showable() by {
                        if k < before.len() {
                            assert(after[k] == before[k]);
                        }
                    }
                    assert forall|k: int| 0 <= k < after.len() implies (
                    #[trigger] shown@[k]).shows(after[k], now) by {
                        if k < before.len() {
                            assert(after[k] == before[k]);
                        }
                    }
                },
                Err(e) => {
                    proof {
                        assert(after[before.len() as int] == *row);
                        lemma_listed_grow(rows@, i + 1, now);
                    }
                    return Err(e);
                },
            }
        }
        i += 1;
    }
    assert(rows@.take(i as int) =~= rows@);
    Ok(shown)
}

/// Whether a title is kept back until a time that a team waits for.
pub open spec fn awaited(row: HintRow, now: Timestamp) -> bool {
    row.released(now) && row.enabled() && row.title_hidden && (row.start() matches Some(at) && at
        + row.wait() > now)
}

/// When the next of the titles that are kept back is shown: the earliest of their times. Times that
/// do not fit are not waited for.
pub fn sync_due_hints(rows: &Vec<HintRow>, now: Timestamp) -> (r: Option<Timestamp>)
    ensures
        match r {
            Some(next) => {
                &&& exists|i: int|
                    0 <= i < rows@.len() && awaited(#[trigger] rows@[i], now) && next == rows@[i].start()->0
                        + rows@[i].wait()
                &&& forall|i: int|
                    0 <= i < rows@.len() && awaited(#[trigger] rows@[i], now) ==> next
                        <= rows@[i].start()->0 + rows@[i].wait()
            },
            None => forall|i: int|
                0 <= i < rows@.len() && awaited(#[trigger] rows@[i], now) ==> rows@[i].start()->0
                    + rows@[i].wait() > i64::MAX,
        },
{
    let mut next: Option<Timestamp> = None;
    let mut i: usize = 0;
    while i < rows.len()
        invariant
            i <= rows@.len(),
            match next {
                Some(t) => {
                    &&& exists|k: int|
                        0 <= k < i && awaited(#[trigger] rows@[k], now) && t == rows@[k].start()->0
                            + rows@[k].wait()
                    &&& forall|k: int|
                        0 <= k < i && awaited(#[trigger] rows@[k], now) ==> t <= rows@[k].start()->0
                            + rows@[k].wait()
                },
                None => forall|k: int|
                    0 <= k < i && awaited(#[trigger] rows@[k], now) ==> rows@[k].start()->0
                        + rows@[k].wait() > i64::MAX,
            },
        decreases rows@.len() - i,
    {
        let row = &rows[i];
        if row.is_released(now) && row.is_enabled() && row.title_hidden {
            if let Some(start) = row.find_start() {
                let at: i128 = (start as i128) + (row.cooldown as i128) * 1_000_000;
                if at > now as i128 {
                    assert(awaited(rows@[i as int], now));
                    let earlier = match next {
                        Some(t) => at < t as i128,
                        None => at <= i64::MAX as i128,
                    };
                    if earlier {
                        next = Some(at as i64);
                    }
                }
            }
        }
        i += 1;
    }
    next
}

/// A team sees the title of a hint that it may buy.
pub proof fn offered_hints_show_their_titles(row: HintRow, now: Timestamp)
    requires
        row.offered(now),
    ensures
        row.listed(now),
        !row.keeps_title(now),
{
}

/// A title that has been shown is not kept back again, and a hint that was told of stays told of.
pub proof fn shown_titles_stay_shown(row: HintRow, sooner: Timestamp, later: Timestamp)
    requires
        sooner <= later,
    ensures
        row.listed(sooner) ==> row.listed(later),
        row.listed(sooner) && !row.keeps_title(sooner) ==> !row.keeps_title(later),
{
}

/// A hint is listed exactly where its puzzle is open to the team and released, and the hint has no
/// condition, or its condition has held, or the team has bought it.
pub proof fn hints_are_listed_once_enabled(row: HintRow, now: Timestamp)
    ensures
        row.listed(now) <==> row.state >= 0 && row.release_at <= now && (!row.has_condition
            || row.enabled_at is Some || row.purchased_at is Some),
        row.released(now) <==> row.state >= 0 && row.release_at <= now,
        row.enabled() <==> !row.has_condition || row.enabled_at is Some,
{
}

/// A hint is offered exactly where its puzzle is open to the team and released, the team has not bought
/// it, its condition, if it has one, has held, and its wait is over: a wait that starts with the
/// condition runs from then, any other from when the puzzle was opened or released, whichever was
/// later.
pub proof fn hints_are_offered_after_the_wait(row: HintRow, now: Timestamp)
    ensures
        row.cooldown_after_enable ==> (row.offered(now) <==> row.state >= 0 && row.release_at <= now
            && row.purchased_at is None && row.enabled_at is Some && row.enabled_at->0 + row.cooldown
            * 1_000_000 <= now),
        !row.cooldown_after_enable ==> (row.offered(now) <==> row.state >= 0 && row.release_at <= now
            && row.purchased_at is None && (!row.has_condition || row.enabled_at is Some)
            && row.opened_at + row.cooldown * 1_000_000 <= now && row.release_at + row.cooldown
            * 1_000_000 <= now),
        row.purchased_at is Some ==> !row.offered(now),
{
}

/// A title is kept back only where it is hidden and only until the wait is over; a hint that was bought
/// before its condition held counts its wait from then.
pub proof fn titles_are_kept_until_the_wait_is_over(row: HintRow, now: Timestamp)
    ensures
        !row.title_hidden ==> !row.keeps_title(now),
        row.title_hidden && row.cooldown_after_enable && row.enabled_at is Some ==> (row.keeps_title(
            now,
        ) <==> now < row.enabled_at->0 + row.cooldown * 1_000_000),
        row.title_hidden && row.cooldown_after_enable && row.enabled_at is None && row.purchased_at
            is Some ==> (row.keeps_title(now) <==> now < row.purchased_at->0 + row.cooldown
            * 1_000_000),
        row.title_hidden && !row.cooldown_after_enable ==> (row.keeps_title(now) <==> now
            < row.opened_at + row.cooldown * 1_000_000 || now < row.release_at + row.cooldown
            * 1_000_000),
{
}

/// What is shown of a hint: what is stored of it, when its wait is over, and its title unless that is
/// kept back.
pub proof fn hints_show_when_they_can_be_had(shown: RbHintShowData, row: HintRow, now: Timestamp)
    requires
        shown.shows(row, now),
    ensures
        shown.id == row.id,
        shown.title_hidden == row.title_hidden,
        shown.cooldown == row.cooldown,
        shown.cost_id == row.cost_id,
        shown.cost_amount == row.cost_amount,
        shown.title is None <==> row.keeps_title(now),
        shown.title matches Some(title) ==> title@ == row.title@,
        row.cooldown_after_enable && row.enabled_at is Some ==> shown.available_at
            == row.enabled_at->0 + row.cooldown * 1_000_000,
        row.cooldown_after_enable && row.enabled_at is None ==> row.purchased_at is Some
            && shown.available_at == row.purchased_at->0 + row.cooldown * 1_000_000,
        !row.cooldown_after_enable ==> shown.available_at >= row.opened_at + row.cooldown * 1_000_000
            && shown.available_at >= row.release_at + row.cooldown * 1_000_000 && (
        shown.available_at == row.opened_at + row.cooldown * 1_000_000 || shown.available_at
            == row.release_at + row.cooldown * 1_000_000),
{
}

/// The list holds the hints that are listed, in the order of the rows, and no others.
pub proof fn listed_hints_are_those_of_the_rows(rows: Seq<HintRow>, row: HintRow, now: Timestamp)
    ensures
        listed_hints(Seq::empty(), now).len() == 0,
        ({
            let listed = row.state >= 0 && row.release_at <= now && (!row.has_condition
                || row.enabled_at is Some || row.purchased_at is Some);
            &&& listed ==> listed_hints(rows.push(row), now) == listed_hints(rows, now).push(row)
            &&& !listed ==> listed_hints(rows.push(row), now) == listed_hints(rows, now)
        }),
{
    assert(rows.push(row).drop_last() =~= rows);
}

/// A hint is awaited where its title is hidden and its wait is running, and then it is not offered.
pub proof fn awaited_hints_are_not_offered(row: HintRow, now: Timestamp)
    requires
        awaited(row, now),
    ensures
        row.title_hidden,
        row.state >= 0 && row.release_at <= now,
        !row.has_condition || row.enabled_at is Some,
        !row.offered(now),
        row.purchased_at is None || row.enabled_at is Some || !row.cooldown_after_enable
            ==> row.keeps_title(now),
{
}

/// A hint whose title is hidden, of a puzzle that is open, released and enabled, is awaited, or is
/// offered, or was bought.
pub proof fn hidden_hints_are_awaited(row: HintRow, now: Timestamp)
    requires
        row.title_hidden,
        row.state >= 0,
        row.release_at <= now,
        row.enabled_at is Some,
    ensures
        awaited(row, now) || row.offered(now) || row.purchased_at is Some,
{
}

/// Hints can be shown where the time at which they can be had is known and fits, and are shown one for
/// one.
pub proof fn hints_are_shown_one_for_one(
    shown: Seq<RbHintShowData>,
    rows: Seq<HintRow>,
    now: Timestamp,
    i: int,
)
    ensures
        show_all(shown, rows, now) ==> shown.len() == rows.len(),
        show_all(shown, rows, now) && 0 <= i < rows.len() ==> shown[i].shows(rows[i], now),
        0 <= i < rows.len() && !rows[i].showable() ==> !all_showable(rows),
        0 <= i < rows.len() ==> (rows[i].showable() <==> rows[i].shown_start() is Some && i64::MIN
            <= rows[i].shown_start()->0 + rows[i].cooldown * 1_000_000 <= i64::MAX),
{
}

/// A team may answer exactly where its wait is over and it has answers left; one more wrong answer
/// never gives it more, and time never takes any.
pub proof fn answers_run_out(
    cooldown_till: Option<Timestamp>,
    max_submit: Option<i32>,
    allowance: i32,
    failures: i64,
    now: Timestamp,
    later: Timestamp,
)
    requires
        now <= later,
        failures < i64::MAX,
    ensures
        answers_are_left(None, None, allowance, failures, now),
        cooldown_till is Some && cooldown_till->0 > now ==> !answers_are_left(
            cooldown_till,
            max_submit,
            allowance,
            failures,
            now,
        ),
        max_submit is Some && failures >= max_submit->0 + allowance ==> !answers_are_left(
            cooldown_till,
            max_submit,
            allowance,
            failures,
            now,
        ),
        (cooldown_till is None || cooldown_till->0 <= now) && (max_submit is None || failures
            < max_submit->0 + allowance) ==> answers_are_left(
            cooldown_till,
            max_submit,
            allowance,
            failures,
            now,
        ),
        answers_are_left(cooldown_till, max_submit, allowance, (failures + 1) as i64, now)
            ==> answers_are_left(cooldown_till, max_submit, allowance, failures, later),
{
}

} // verus!
