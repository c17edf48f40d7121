//! What a team has of a currency, and how that changes.
use vstd::prelude::*;

use crate::json;
use crate::clock::Timestamp;
use crate::db::event_log::{CurrencyEventData, EventLogInput, EventRefs};
use crate::db::event_log;
use crate::error::{fault, RbInternalError};
use crate::json::{Json, J};
use crate::num;
use crate::num::saturating_add;
use crate::text;
use crate::text::trim;

verus! {

/// What a team has of a currency, as it is shown.
#[derive(Debug)]
pub struct RbCurrencyShowData {
    pub id: i32,
    pub slug: String,
    pub name: String,
    pub growth: i64,
    pub game_growth: i64,
    pub team_growth: i64,
    pub init_amount: i64,
    pub prec: i32,
    pub amount: i64,
    pub current_amount: i64,
    pub max_amount: i64,
    pub hidden: bool,
    pub utime_at: Timestamp,
}

/// What a team has of a currency, as a puzzle's backend sees it.
#[derive(Debug)]
pub struct PuzzleBackendCurrencyShowData {
    pub id: i32,
    pub slug: String,
    pub name: String,
    pub growth: i64,
    pub base_growth: i64,
    pub team_growth: i64,
    pub initial_amount: i64,
    pub precision: i32,
    pub amount: i64,
    pub current_amount: i64,
    pub max_amount: i64,
    pub hidden: bool,
    pub updated_at: Timestamp,
}

impl From<RbCurrencyShowData> for PuzzleBackendCurrencyShowData {
    fn from(currency: RbCurrencyShowData) -> (r: Self) {
        PuzzleBackendCurrencyShowData {
            id: currency.id,
            slug: currency.slug,
            name: currency.name,
            growth: currency.growth,
            base_growth: currency.game_growth,
            team_growth: currency.team_growth,
            initial_amount: currency.init_amount,
            precision: currency.prec,
            amount: currency.amount,
            current_amount: currency.current_amount,
            max_amount: currency.max_amount,
            hidden: currency.hidden,
            updated_at: currency.utime_at,
        }
    }
}

impl vstd::std_specs::convert::FromSpecImpl<RbCurrencyShowData> for PuzzleBackendCurrencyShowData {
    open spec fn obeys_from_spec() -> bool {
        true
    }

    open spec fn from_spec(currency: RbCurrencyShowData) -> Self {
        PuzzleBackendCurrencyShowData {
            id: currency.id,
            slug: currency.slug,
            name: currency.name,
            growth: currency.growth,
            base_growth: currency.game_growth,
            team_growth: currency.team_growth,
            initial_amount: currency.init_amount,
            precision: currency.prec,
            amount: currency.amount,
            current_amount: currency.current_amount,
            max_amount: currency.max_amount,
            hidden: currency.hidden,
            updated_at: currency.utime_at,
        }
    }
}

/// What a team has of a currency, as administrators see it.
#[derive(Debug)]
pub struct AdminTeamCurrencyData {
    pub currency: RbCurrencyShowData,
    pub game_growth: i64,
    pub team_growth: i64,
}

impl From<RbCurrencyShowData> for AdminTeamCurrencyData {
    fn from(currency: RbCurrencyShowData) -> (r: Self) {
        AdminTeamCurrencyData {
            game_growth: currency.game_growth,
            team_growth: currency.team_growth,
            currency,
        }
    }
}

impl vstd::std_specs::convert::FromSpecImpl<RbCurrencyShowData> for AdminTeamCurrencyData {
    open spec fn obeys_from_spec() -> bool {
        true
    }

    open spec fn from_spec(currency: RbCurrencyShowData) -> Self {
        AdminTeamCurrencyData {
            game_growth: currency.game_growth,
            team_growth: currency.team_growth,
            currency,
        }
    }
}

pub open spec fn least(a: int, b: int) -> int {
    if a <= b {
        a
    } else {
        b
    }
}

pub open spec fn greatest(a: int, b: int) -> int {
    if a >= b {
        a
    } else {
        b
    }
}

/// What a balance has grown to after whole minutes: it does not pass the maximum, and growth takes
/// it neither below zero nor deeper into debt.
pub open spec fn grown(amount: int, growth: int, max: int, minutes: int) -> int {
    greatest(least(amount, 0), least(amount + minutes * growth, max))
}

/// How many whole minutes have gone by between two times, given in microseconds.
pub open spec fn minutes_between(from: Timestamp, to: Timestamp) -> int {
    (to - from) / 60_000_000
}

/// A balance, as it is stored.
#[derive(Debug, Clone, Copy, PartialEq, Eq, Structural)]
pub struct StoredBalance {
    pub amount: i64,
    pub growth: i64,
    pub max_amount: i64,
    pub utime_at: Timestamp,
    /// Whether balances grow at all.
    pub growing: bool,
}

impl StoredBalance {
    /// What a team has at a time.
    pub open spec fn at(self, now: Timestamp) -> int {
        if self.growing {
            grown(
                self.amount as int,
                self.growth as int,
                self.max_amount as int,
                minutes_between(self.utime_at, now),
            )
        } else {
            self.amount as int
        }
    }
}

/// How many whole minutes have gone by between two times.
pub(crate) fn whole_minutes(from: Timestamp, to: Timestamp) -> (r: i128)
    ensures
        r == minutes_between(from, to),
        -0x2_0000_0000_0000 <= r <= 0x2_0000_0000_0000,
{
    let elapsed: i128 = (to as i128) - (from as i128);
    if elapsed >= 0 {
        elapsed / 60_000_000
    } else {
        -((-elapsed + 59_999_999) / 60_000_000)
    }
}

/// What a balance has grown to after some minutes, if nothing stops it.
pub(crate) fn amount_after(balance: &StoredBalance, minutes: i128) -> (r: i128)
    requires
        -0x2_0000_0000_0000 <= minutes <= 0x2_0000_0000_0000,
    ensures
        r == balance.amount + minutes * balance.growth,
{
    let growth: i128 = balance.growth as i128;
    assert(-0x2_0000_0000_0000 * 0x8000_0000_0000_0000 <= minutes * growth <= 0x2_0000_0000_0000
        * 0x8000_0000_0000_0000) by (nonlinear_arith)
        requires
            -0x2_0000_0000_0000 <= minutes <= 0x2_0000_0000_0000,
            -0x8000_0000_0000_0000 <= growth <= 0x8000_0000_0000_0000,
    ;
    (balance.amount as i128) + minutes * growth
}

/// What a team has at a time.
pub fn current_amount(balance: &StoredBalance, now: Timestamp) -> (r: i64)
    ensures
        r == balance.at(now),
{
    if !balance.growing {
        return balance.amount;
    }
    let reached: i128 = amount_after(balance, whole_minutes(balance.utime_at, now));
    let top: i128 = balance.max_amount as i128;
    let capped: i128 = if reached <= top {
        reached
    } else {
        top
    };
    let floor: i128 = if balance.amount <= 0 {
        balance.amount as i128
    } else {
        0
    };
    let held: i128 = if floor >= capped {
        floor
    } else {
        capped
    };
    held as i64
}

/// However long a balance grows, it does not pass a maximum that is not negative, and growth takes
/// it neither below zero nor deeper into debt.
pub proof fn growth_stays_within_bounds(balance: StoredBalance, now: Timestamp)
    requires
        balance.growing,
        balance.max_amount >= 0,
    ensures
        balance.at(now) <= balance.max_amount,
        balance.amount >= 0 ==> balance.at(now) >= 0,
        balance.amount < 0 ==> balance.at(now) >= balance.amount,
{
}

/// A balance with growth that is not negative does not shrink as time goes by.
pub proof fn growth_is_monotone(balance: StoredBalance, sooner: Timestamp, later: Timestamp)
    requires
        balance.growth >= 0,
        sooner <= later,
    ensures
        balance.at(sooner) <= balance.at(later),
{
    let a = minutes_between(balance.utime_at, sooner);
    let b = minutes_between(balance.utime_at, later);
    let g = balance.growth as int;
    assert(a <= b) by {
        vstd::arithmetic::div_mod::lemma_div_is_ordered(
            sooner - balance.utime_at,
            later - balance.utime_at,
            60_000_000,
        );
    }
    assert(a * g <= b * g) by (nonlinear_arith)
        requires
            a <= b,
            g >= 0,
    ;
}

/// A currency of a team, locked for a change.
#[derive(Debug)]
pub struct CurrencyRuntimeRow {
    pub id: i32,
    pub game_id: i32,
    pub slug: String,
    pub name: String,
    pub prec: i32,
    pub current_amount: i64,
    pub max_amount: i64,
}

impl CurrencyRuntimeRow {
    /// The change to a new balance.
    pub open spec fn changes_to(self, change: CurrencyEventData, after: i64) -> bool {
        &&& change.id == self.id
        &&& change.slug@ == self.slug@
        &&& change.name@ == self.name@
        &&& change.prec == self.prec
        &&& change.before == self.current_amount
        &&& change.after == after
    }

    fn change_to(&self, after: i64) -> (r: CurrencyEventData)
        ensures
            self.changes_to(r, after),
    {
        CurrencyEventData {
            id: self.id,
            slug: self.slug.clone(),
            name: self.name.clone(),
            prec: self.prec,
            before: self.current_amount,
            after,
        }
    }
}

/// What is to be changed of a team's currency.
#[derive(Debug, Clone, Copy, PartialEq, Eq, Structural)]
pub struct UpdateCurrencyOptions {
    pub amount: Option<i64>,
    pub team_growth: Option<i64>,
    pub hidden: Option<bool>,
}

/// Why a balance is changed.
#[derive(Debug, Clone, Copy)]
pub struct CurrencyEventContext<'a> {
    pub puzzle_id: Option<i32>,
    pub puzzle_title: Option<&'a str>,
    pub reason: Option<&'a str>,
}

/// How a balance is changed.
#[derive(Debug, Clone, Copy, PartialEq, Eq, Structural)]
pub struct CurrencyUpdate {
    /// Whether the balance is settled: its amount and its time are written anew.
    pub settles: bool,
    pub next_amount: i64,
    /// The new amount, where one was asked for.
    pub set_to: Option<i64>,
}

/// How a balance is changed: a new amount is held to the maximum, and a balance whose growth
/// changes is settled first.
pub fn apply_currency_update(row: &CurrencyRuntimeRow, options: &UpdateCurrencyOptions) -> (r:
    CurrencyUpdate)
    ensures
        r.settles == (options.amount is Some || options.team_growth is Some),
        r.next_amount == least(
            match options.amount {
                Some(amount) => amount as int,
                None => row.current_amount as int,
            },
            row.max_amount as int,
        ),
        r.set_to == (match options.amount {
            Some(amount) => Some(r.next_amount),
            None => None::<i64>,
        }),
{
    let wanted: i64 = match options.amount {
        Some(amount) => amount,
        None => row.current_amount,
    };
    let next_amount: i64 = if wanted <= row.max_amount {
        wanted
    } else {
        row.max_amount
    };
    let set_to: Option<i64> = match options.amount {
        Some(_) => Some(next_amount),
        None => None,
    };
    CurrencyUpdate {
        settles: options.amount.is_some() || options.team_growth.is_some(),
        next_amount,
        set_to,
    }
}

/// The part of a context that a change is logged with.
pub open spec fn context_view(context: Option<CurrencyEventContext>) -> (
    Option<Seq<char>>,
    Option<i32>,
    Option<Seq<char>>,
) {
    match context {
        Some(c) => (json::str_view(c.reason), c.puzzle_id, json::str_view(c.puzzle_title)),
        None => (None, None, None),
    }
}

/// Whether an event tells of a change of a team's balance.
pub open spec fn tells_change(
    event: EventLogInput,
    name: Seq<char>,
    team_id: i32,
    row: CurrencyRuntimeRow,
    change: CurrencyEventData,
    delta: int,
    context: Option<CurrencyEventContext>,
) -> bool {
    event.is_team_event(
        name,
        (EventRefs {
            game_id: Some(row.game_id),
            team_id: Some(team_id),
            currency_id: Some(row.id),
            delta_amount: Some(delta as i64),
            ..event_log::no_refs()
        }),
        json::object_of(
            change.pairs(
                context_view(context).0,
                context_view(context).1,
                context_view(context).2,
            ),
        ),
    )
}

fn change_event(
    event_type: &'static str,
    team_id: i32,
    row: &CurrencyRuntimeRow,
    change: &CurrencyEventData,
    delta: i64,
    context: Option<CurrencyEventContext<'_>>,
) -> (r: EventLogInput)
    requires
        change.wf(),
    ensures
        tells_change(r, event_type@, team_id, *row, *change, delta as int, context),
{
    let data = match context {
        Some(c) => change.json(c.reason, c.puzzle_id, c.puzzle_title),
        None => change.json(None, None, None),
    };
    let mut event = EventLogInput::team_activity(event_type, data);
    event.game_id = Some(row.game_id);
    event.team_id = Some(team_id);
    event.currency_id = Some(row.id);
    event.delta_amount = Some(delta);
    event
}

/// The event of a balance that a backend has set, where the difference can be written as a number.
pub fn currency_updated(
    team_id: i32,
    row: &CurrencyRuntimeRow,
    after: i64,
    context: Option<CurrencyEventContext<'_>>,
) -> (r: Result<EventLogInput, RbInternalError>)
    ensures
        match r {
            Ok(event) => i64::MIN <= after - row.current_amount <= i64::MAX && exists|
                change: CurrencyEventData,
            |
                row.changes_to(change, after) && #[trigger] tells_change(
                    event,
                    "currency.updated"@,
                    team_id,
                    *row,
                    change,
                    after - row.current_amount,
                    context,
                ),
            Err(e) => !(i64::MIN <= after - row.current_amount <= i64::MAX) && e.text()
                == "currency.update delta amount overflow"@,
        },
{
    match after.checked_sub(row.current_amount) {
        Some(delta) => {
            let change = row.change_to(after);
            let event = change_event("currency.updated", team_id, row, &change, delta, context);
            assert(tells_change(
                event,
                "currency.updated"@,
                team_id,
                *row,
                change,
                after - row.current_amount,
                context,
            ));
            Ok(event)
        },
        None => Err(fault("currency.update delta amount overflow")),
    }
}

/// What is left of a reason: nothing where it is blank.
pub open spec fn reason_left(reason: Option<Seq<char>>) -> Option<Seq<char>> {
    match reason {
        Some(text) if text::trimmed(text).len() > 0 => Some(text::trimmed(text)),
        _ => None,
    }
}

/// What is left of a reason: nothing where it is blank.
pub fn tidy_reason(reason: Option<&str>) -> (r: Option<String>)
    ensures
        match reason_left(json::str_view(reason)) {
            Some(text) => r matches Some(s) && s@ == text,
            None => r is None,
        },
{
    match reason {
        Some(text) => {
            let text = trim(text);
            if text.as_str().is_empty() {
                None
            } else {
                Some(text)
            }
        },
        None => None,
    }
}

/// The event of a balance that a member of the staff has changed.
pub fn staff_adjusted(
    team_id: i32,
    row: &CurrencyRuntimeRow,
    after: i64,
    actor_id: i32,
    reason: Option<&str>,
    source: &'static str,
) -> (r: EventLogInput)
    requires
        i64::MIN <= after - row.current_amount <= i64::MAX,
    ensures
        exists|change: CurrencyEventData|
            row.changes_to(change, after) && r.is_team_event(
                "currency.staff_adjusted"@,
                (EventRefs {
                    game_id: Some(row.game_id),
                    team_id: Some(team_id),
                    user_id: Some(actor_id),
                    currency_id: Some(row.id),
                    delta_amount: Some((after - row.current_amount) as i64),
                    ..event_log::no_refs()
                }),
                json::object_of(
                    (#[trigger] change.pairs(reason_left(json::str_view(reason)), None, None)).push(
                        ("staff"@, J::Bool(true)),
                    ).push(("source"@, J::Text(source@))),
                ),
            ),
{
    let reason = tidy_reason(reason);
    let change = row.change_to(after);
    let fields = match &reason {
        Some(text) => change.fields(Some(text.as_str()), None, None),
        None => change.fields(None, None, None),
    };
    let data = fields.put("staff", Json::Bool(true)).put("source", Json::text(source)).object();
    let mut event = EventLogInput::team_activity("currency.staff_adjusted", data);
    event.game_id = Some(row.game_id);
    event.team_id = Some(team_id);
    event.user_id = Some(actor_id);
    event.currency_id = Some(row.id);
    event.delta_amount = Some(after - row.current_amount);
    event
}

/// Where a strict adjustment leads.
#[derive(Debug, Clone, Copy, PartialEq, Eq, Structural)]
pub enum StrictCurrencyBoundary {
    Overflow,
    AboveMax,
    Next(i64),
}

/// Where a strict adjustment leads: it may take a balance below zero, but not above the maximum.
pub fn strict_currency_next(current: i64, max: i64, delta: i64) -> (r: StrictCurrencyBoundary)
    ensures
        r == (if !(i64::MIN <= current + delta <= i64::MAX) {
            StrictCurrencyBoundary::Overflow
        } else if current + delta > max {
            StrictCurrencyBoundary::AboveMax
        } else {
            StrictCurrencyBoundary::Next((current + delta) as i64)
        }),
{
    match current.checked_add(delta) {
        None => StrictCurrencyBoundary::Overflow,
        Some(next) => {
            if next > max {
                StrictCurrencyBoundary::AboveMax
            } else {
                StrictCurrencyBoundary::Next(next)
            }
        },
    }
}

/// How an adjustment by the staff ends.
#[derive(Debug, Clone, Copy, PartialEq, Eq, Structural)]
pub enum StaffAdjustment {
    NotFound,
    Overflow,
    AboveMax,
    Update(i64),
}

/// What an adjustment of a balance by the staff comes to.
pub open spec fn adjustment_of(
    row: Option<CurrencyRuntimeRow>,
    game_id: i32,
    available: bool,
    delta: i64,
) -> StaffAdjustment {
    match row {
        Some(row) if row.game_id == game_id && available => if !(i64::MIN <= row.current_amount
            + delta <= i64::MAX) {
            StaffAdjustment::Overflow
        } else if row.current_amount + delta > row.max_amount {
            StaffAdjustment::AboveMax
        } else {
            StaffAdjustment::Update((row.current_amount + delta) as i64)
        },
        _ => StaffAdjustment::NotFound,
    }
}

/// How an adjustment by the staff ends, given the currency as it was locked for the team and
/// whether it is shown to players.
pub fn staff_adjust_currency(
    row: &Option<CurrencyRuntimeRow>,
    game_id: i32,
    available: bool,
    delta: i64,
) -> (r: StaffAdjustment)
    ensures
        r == adjustment_of(*row, game_id, available, delta),
{
    match row {
        None => StaffAdjustment::NotFound,
        Some(row) => {
            if row.game_id != game_id || !available {
                return StaffAdjustment::NotFound;
            }
            match strict_currency_next(row.current_amount, row.max_amount, delta) {
                StrictCurrencyBoundary::Overflow => StaffAdjustment::Overflow,
                StrictCurrencyBoundary::AboveMax => StaffAdjustment::AboveMax,
                StrictCurrencyBoundary::Next(next) => StaffAdjustment::Update(next),
            }
        },
    }
}

/// How an administrator's change ends: where the game has the currency, it is applied, and a new
/// balance is logged with its amount.
#[derive(Debug, Clone, Copy, PartialEq, Eq, Structural)]
pub struct AdminCurrencyUpdate {
    pub update: CurrencyUpdate,
    pub log: Option<i64>,
}

/// How an administrator's change ends.
pub fn admin_update_currency(
    row: &Option<CurrencyRuntimeRow>,
    game_id: i32,
    options: &UpdateCurrencyOptions,
) -> (r: Option<AdminCurrencyUpdate>)
    ensures
        match *row {
            Some(row) if row.game_id == game_id => {
                &&& r matches Some(u)
                &&& u.update.settles == (options.amount is Some || options.team_growth is Some)
                &&& u.update.next_amount == least(
                    match options.amount {
                        Some(amount) => amount as int,
                        None => row.current_amount as int,
                    },
                    row.max_amount as int,
                )
                &&& u.log == (match options.amount {
                    Some(amount) if u.update.next_amount != row.current_amount => Some(
                        u.update.next_amount,
                    ),
                    _ => None,
                })
            },
            _ => r is None,
        },
{
    match row {
        None => None,
        Some(row) => {
            if row.game_id != game_id {
                return None;
            }
            let update = apply_currency_update(row, options);
            let log: Option<i64> = match update.set_to {
                Some(after) => {
                    if after != row.current_amount {
                        Some(after)
                    } else {
                        None
                    }
                },
                None => None,
            };
            Some(AdminCurrencyUpdate { update, log })
        },
    }
}

/// A charge.
#[derive(Debug, Clone, Copy, PartialEq, Eq, Structural)]
pub struct CurrencyCostChange {
    pub next_amount: i64,
    pub delta: i64,
}

/// Whether a charge goes through: a charge may not end below zero, a refund may not end above the
/// maximum, and both must stay within 64 bits.
pub open spec fn cost_goes_through(current: int, max: int, amount: int) -> bool {
    &&& amount > i64::MIN
    &&& i64::MIN <= current - amount <= i64::MAX
    &&& !(amount > 0 && current - amount < 0)
    &&& !(amount < 0 && current - amount > max)
}

/// What a charge does, where it goes through.
pub fn currency_cost_change(current: i64, max: i64, amount: i64) -> (r: Option<CurrencyCostChange>)
    ensures
        match r {
            Some(change) => {
                &&& cost_goes_through(current as int, max as int, amount as int)
                &&& change.next_amount == current - amount
                &&& change.delta == -amount
            },
            None => !cost_goes_through(current as int, max as int, amount as int),
        },
{
    if amount == i64::MIN {
        return None;
    }
    let delta: i64 = -amount;
    match current.checked_add(delta) {
        None => None,
        Some(next_amount) => {
            if (amount > 0 && next_amount < 0) || (amount < 0 && next_amount > max) {
                return None;
            }
            Some(CurrencyCostChange { next_amount, delta })
        },
    }
}

/// A charge that goes through, and its refund, leave a balance that is within its bounds as it was.
pub proof fn a_refund_undoes_a_charge(current: int, max: int, amount: int)
    requires
        0 <= current <= max <= i64::MAX,
        i64::MIN < amount <= i64::MAX,
        cost_goes_through(current, max, amount),
    ensures
        cost_goes_through(current - amount, max, -amount),
        (current - amount) - (-amount) == current,
{
}

/// What a charge does to a locked currency, and its event, where it goes through.
pub fn cost_currency_locked(
    team_id: i32,
    row: &CurrencyRuntimeRow,
    amount: i64,
    context: Option<CurrencyEventContext<'_>>,
) -> (r: Option<(i64, EventLogInput)>)
    ensures
        match r {
            Some((next, event)) => {
                &&& cost_goes_through(row.current_amount as int, row.max_amount as int, amount as int)
                &&& next == row.current_amount - amount
                &&& exists|change: CurrencyEventData|
                    row.changes_to(change, next) && #[trigger] tells_change(
                        event,
                        "currency.cost"@,
                        team_id,
                        *row,
                        change,
                        -amount,
                        context,
                    )
            },
            None => !cost_goes_through(
                row.current_amount as int,
                row.max_amount as int,
                amount as int,
            ),
        },
{
    match currency_cost_change(row.current_amount, row.max_amount, amount) {
        None => None,
        Some(cost) => {
            let change = row.change_to(cost.next_amount);
            let event = change_event("currency.cost", team_id, row, &change, cost.delta, context);
            assert(tells_change(event, "currency.cost"@, team_id, *row, change, -amount, context));
            Some((cost.next_amount, event))
        },
    }
}

/// The balance after an addition: the sum, held between zero, or the debt that there was, and the
/// maximum.
pub open spec fn amount_after_adding(current: i64, max: i64, delta: i64) -> int {
    let sum = num::saturated(current + delta) as int;
    if sum < least(current as int, 0) {
        least(current as int, 0)
    } else if sum > max {
        max as int
    } else {
        sum
    }
}

/// What an addition does to a locked currency: the new balance, by how much it has grown, and the
/// event.
pub fn add_currency_locked(
    team_id: i32,
    row: &CurrencyRuntimeRow,
    delta: i64,
    context: Option<CurrencyEventContext<'_>>,
) -> (r: (i64, i64, EventLogInput))
    requires
        least(row.current_amount as int, 0) <= row.max_amount,
    ensures
        r.0 == amount_after_adding(row.current_amount, row.max_amount, delta),
        r.1 == r.0 - row.current_amount,
        exists|change: CurrencyEventData|
            row.changes_to(change, r.0) && #[trigger] tells_change(
                r.2,
                "currency.added"@,
                team_id,
                *row,
                change,
                r.1 as int,
                context,
            ),
{
    let current = row.current_amount;
    let next_amount = saturating_add(current, delta);
    let floor: i64 = if current <= 0 {
        current
    } else {
        0
    };
    let stored_amount: i64 = if next_amount < floor {
        floor
    } else if next_amount > row.max_amount {
        row.max_amount
    } else {
        next_amount
    };
    let actual_growth: i64 = stored_amount - current;
    let change = row.change_to(stored_amount);
    let event = change_event("currency.added", team_id, row, &change, actual_growth, context);
    let result = (stored_amount, actual_growth, event);
    assert(row.changes_to(change, result.0) && tells_change(
        result.2,
        "currency.added"@,
        team_id,
        *row,
        change,
        result.1 as int,
        context,
    ));
    result
}

/// An addition never passes the maximum, takes nothing below zero, and makes no debt deeper.
pub proof fn additions_stay_within_bounds(current: i64, max: i64, delta: i64)
    requires
        least(current as int, 0) <= max,
    ensures
        amount_after_adding(current, max, delta) <= max,
        current >= 0 ==> amount_after_adding(current, max, delta) >= 0,
        current < 0 ==> amount_after_adding(current, max, delta) >= current,
{
}

/// The minutes between two times are the whole ones: the part of a minute that has begun does not
/// count.
pub proof fn minutes_are_counted(from: Timestamp, to: Timestamp, minutes: int)
    requires
        from + minutes * 60_000_000 <= to < from + (minutes + 1) * 60_000_000,
    ensures
        minutes_between(from, to) == minutes,
{
    assert((to - from) / 60_000_000 == minutes) by (nonlinear_arith)
        requires
            minutes * 60_000_000 <= to - from < (minutes + 1) * 60_000_000,
    ;
}

/// A balance that does not grow stays as it is stored. One that grows has its growth for each whole
/// minute added, up to its bound, and does not fall below nothing, or below what was stored where that
/// is a debt.
pub proof fn balances_grow(balance: StoredBalance, now: Timestamp, minutes: int)
    requires
        balance.utime_at + minutes * 60_000_000 <= now < balance.utime_at + (minutes + 1)
            * 60_000_000,
    ensures
        ({
            let grown_to = balance.amount + minutes * balance.growth;
            &&& !balance.growing ==> balance.at(now) == balance.amount
            &&& balance.growing && balance.amount >= 0 && 0 <= grown_to <= balance.max_amount
                ==> balance.at(now) == grown_to
            &&& balance.growing && balance.max_amount >= 0 && grown_to > balance.max_amount
                ==> balance.at(now) == balance.max_amount
            &&& balance.growing && balance.amount >= 0 && grown_to < 0 ==> balance.at(now) == 0
            &&& balance.growing && balance.amount < 0 && balance.amount <= grown_to
                <= balance.max_amount ==> balance.at(now) == grown_to
            &&& balance.growing && balance.amount < 0 && grown_to < balance.amount ==> balance.at(now)
                == balance.amount
        }),
{
    minutes_are_counted(balance.utime_at, now, minutes);
}

/// A cost goes through exactly where what is left fits, a charge leaves no debt, and a refund does not
/// pass the bound.
pub proof fn costs_go_through(current: int, max: int, amount: int)
    requires
        i64::MIN < amount <= i64::MAX,
        i64::MIN <= current - amount <= i64::MAX,
    ensures
        amount == 0 ==> cost_goes_through(current, max, amount),
        amount > 0 ==> (cost_goes_through(current, max, amount) <==> current >= amount),
        amount < 0 ==> (cost_goes_through(current, max, amount) <==> current - amount <= max),
        !cost_goes_through(current, max, i64::MIN as int),
{
}

/// What is added is added in full where the sum lies within the bounds; otherwise the balance stops at
/// the bound that it would pass.
pub proof fn additions_are_made_in_full(current: i64, max: i64, delta: i64)
    requires
        0 <= current <= max,
    ensures
        0 <= current + delta <= max ==> amount_after_adding(current, max, delta) == current + delta,
        current + delta > max ==> amount_after_adding(current, max, delta) == max,
        current + delta < 0 ==> amount_after_adding(current, max, delta) == 0,
{
}

/// A debt that is reduced is reduced in full, and one that would grow stays.
pub proof fn debts_do_not_grow(current: i64, max: i64, delta: i64)
    requires
        current < 0 <= max,
    ensures
        delta <= 0 ==> amount_after_adding(current, max, delta) == current,
        0 < delta && current + delta <= max ==> amount_after_adding(current, max, delta) == current
            + delta,
{
}

/// A change is told of the currency that it changed, from what it held to what it holds.
pub proof fn changes_name_their_currency(
    row: CurrencyRuntimeRow,
    change: CurrencyEventData,
    after: i64,
)
    requires
        row.changes_to(change, after),
    ensures
        change.id == row.id,
        change.slug@ == row.slug@,
        change.name@ == row.name@,
        change.prec == row.prec,
        change.before == row.current_amount,
        change.after == after,
{
}

/// The event of a change refers to the game, the team and the currency, and to how much was added.
pub proof fn changes_are_told(
    event: EventLogInput,
    name: Seq<char>,
    team_id: i32,
    row: CurrencyRuntimeRow,
    change: CurrencyEventData,
    delta: int,
    context: Option<CurrencyEventContext>,
)
    requires
        tells_change(event, name, team_id, row, change, delta, context),
        i64::MIN <= delta <= i64::MAX,
    ensures
        event.event_type@ == name,
        event.game_id == Some(row.game_id),
        event.team_id == Some(team_id),
        event.currency_id == Some(row.id),
        event.delta_amount == Some(delta as i64),
        event.user_id is None && event.puzzle_id is None && event.ticket_id is None && event.hint_id
            is None && event.submission_id is None && event.round_id is None && event.target_user_id
            is None,
{
}

/// A reason is told without the blanks around it, and not at all where nothing else is left.
pub proof fn blank_reasons_are_left_out(reason: Seq<char>)
    ensures
        reason_left(None) is None,
        reason_left(Some(reason)) is Some <==> text::trimmed(reason).len() > 0,
        reason_left(Some(reason)) matches Some(left) ==> left == text::trimmed(reason) && left.len()
            > 0,
{
}

/// What is told of a change beside its amounts is what its context names, and nothing without one.
pub proof fn contexts_are_told(context: CurrencyEventContext)
    ensures
        context_view(None).0 is None && context_view(None).1 is None && context_view(None).2 is None,
        context_view(Some(context)).0 is Some <==> context.reason is Some,
        context.reason matches Some(reason) ==> context_view(Some(context)).0 == Some(reason@),
        context_view(Some(context)).1 == context.puzzle_id,
        context_view(Some(context)).2 is Some <==> context.puzzle_title is Some,
        context.puzzle_title matches Some(title) ==> context_view(Some(context)).2 == Some(title@),
{
}

/// The staff changes a balance of the game by what is asked for, unless that would not fit or pass the
/// bound; a balance of another game is not found.
pub proof fn staff_adjusts_balances(
    row: CurrencyRuntimeRow,
    game_id: i32,
    available: bool,
    delta: i64,
)
    ensures
        adjustment_of(None, game_id, available, delta) == StaffAdjustment::NotFound,
        ({
            let end = adjustment_of(Some(row), game_id, available, delta);
            let sum = row.current_amount + delta;
            let found = row.game_id == game_id && available;
            &&& end == StaffAdjustment::NotFound <==> !found
            &&& end == StaffAdjustment::Overflow <==> found && (sum < i64::MIN || sum > i64::MAX)
            &&& end == StaffAdjustment::AboveMax <==> found && i64::MIN <= sum <= i64::MAX && sum
                > row.max_amount
            &&& found && i64::MIN <= sum <= row.max_amount ==> (end matches StaffAdjustment::Update(
                next,
            ) && next == sum)
        }),
{
}

} // verus!
