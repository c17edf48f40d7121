//! What grows of a balance is paid with, and settled.
use vstd::prelude::*;

use crate::db::team::currency;
use crate::clock::Timestamp;
use crate::db::event_log::CurrencyActivitySummary;
use crate::db::team::currency::{amount_after, whole_minutes, StoredBalance};
use crate::error::{fault, RbInternalError};

verus! {

/// What a balance is worth when it is paid with: what it has grown to, up to the maximum, whether or
/// not balances grow at the time.
pub open spec fn worth(balance: StoredBalance, now: Timestamp) -> int {
    currency::least(
        balance.amount + currency::minutes_between(balance.utime_at, now) * balance.growth,
        balance.max_amount as int,
    )
}

/// By how much a team's balance grows in a minute: by the game's share and by its own. The sum must
/// fit.
pub fn combined_growth(game_growth: i64, team_growth: i64) -> (r: Result<i64, RbInternalError>)
    ensures
        match r {
            Ok(growth) => growth == game_growth + team_growth,
            Err(e) => !(i64::MIN <= game_growth + team_growth <= i64::MAX) && e.text()
                == "bigint out of range"@,
        },
{
    match game_growth.checked_add(team_growth) {
        Some(growth) => Ok(growth),
        None => Err(fault("bigint out of range")),
    }
}

/// A balance before and after a payment.
#[derive(Debug, Clone, Copy, PartialEq, Eq, Structural)]
pub struct Payment {
    pub before: i64,
    pub after: i64,
}

pub open spec fn fits(n: int) -> bool {
    i64::MIN <= n <= i64::MAX
}

/// Takes an amount from a balance, whatever is left of it. Both the balance and what is left must
/// fit.
pub fn charge_penalty(balance: &StoredBalance, now: Timestamp, amount: i64) -> (r: Result<
    Payment,
    RbInternalError,
>)
    ensures
        match r {
            Ok(payment) => {
                &&& payment.before == worth(*balance, now)
                &&& payment.after == worth(*balance, now) - amount
            },
            Err(e) => {
                &&& !(fits(worth(*balance, now)) && fits(worth(*balance, now) - amount))
                &&& e.text() == "bigint out of range"@
            },
        },
{
    let reached: i128 = amount_after(balance, whole_minutes(balance.utime_at, now));
    let top: i128 = balance.max_amount as i128;
    let held: i128 = if reached <= top {
        reached
    } else {
        top
    };
    if held < i64::MIN as i128 {
        return Err(fault("bigint out of range"));
    }
    let before: i64 = held as i64;
    match before.checked_sub(amount) {
        Some(after) => Ok(Payment { before, after }),
        None => Err(fault("bigint out of range")),
    }
}

/// Pays a price from a balance: nothing is paid where the balance is less than a price above zero.
pub fn charge_price(balance: &StoredBalance, now: Timestamp, price: i64) -> (r: Result<
    Option<Payment>,
    RbInternalError,
>)
    ensures
        match r {
            Ok(Some(payment)) => {
                &&& price <= 0 || worth(*balance, now) >= price
                &&& payment.before == worth(*balance, now)
                &&& payment.after == worth(*balance, now) - price
            },
            Ok(None) => fits(worth(*balance, now)) && price > 0 && worth(*balance, now) < price,
            Err(e) => {
                &&& !(fits(worth(*balance, now)) && (fits(worth(*balance, now) - price) || (price > 0
                    && worth(*balance, now) < price)))
                &&& e.text() == "bigint out of range"@
            },
        },
{
    let reached: i128 = amount_after(balance, whole_minutes(balance.utime_at, now));
    let top: i128 = balance.max_amount as i128;
    let held: i128 = if reached <= top {
        reached
    } else {
        top
    };
    if held < i64::MIN as i128 {
        return Err(fault("bigint out of range"));
    }
    if price > 0 && held < price as i128 {
        return Ok(None);
    }
    match charge_penalty(balance, now, price) {
        Ok(payment) => Ok(Some(payment)),
        Err(e) => Err(e),
    }
}

/// The sum of the changes that events tell of; an event that tells of none counts as nothing.
pub open spec fn total_delta(deltas: Seq<Option<i64>>) -> int
    decreases deltas.len(),
{
    if deltas.len() == 0 {
        0
    } else {
        total_delta(deltas.drop_last()) + (match deltas.last() {
            Some(delta) => delta as int,
            None => 0,
        })
    }
}

/// What a team has of a currency beside what its events account for. Both must fit.
pub fn get_currency_activity_summary(
    currency_id: i32,
    init_amount: i64,
    balance: &StoredBalance,
    now: Timestamp,
    deltas: &Vec<Option<i64>>,
) -> (r: Result<CurrencyActivitySummary, RbInternalError>)
    ensures
        match r {
            Ok(summary) => {
                &&& summary.currency_id == currency_id
                &&& summary.init_amount == init_amount
                &&& summary.current_amount == worth(*balance, now)
                &&& summary.logged_delta == total_delta(deltas@)
            },
            Err(e) => {
                &&& !(fits(worth(*balance, now)) && fits(total_delta(deltas@)))
                &&& e.text() == "bigint out of range"@
            },
        },
{
    let reached: i128 = amount_after(balance, whole_minutes(balance.utime_at, now));
    let top: i128 = balance.max_amount as i128;
    let held: i128 = if reached <= top {
        reached
    } else {
        top
    };
    let mut sum: i128 = 0;
    let mut i: usize = 0;
    while i < deltas.len()
        invariant
            i <= deltas@.len(),
            sum == total_delta(deltas@.take(i as int)),
            i64::MIN * i <= sum <= i64::MAX * i,
        decreases deltas@.len() - i,
    {
        assert(deltas@.take(i + 1).drop_last() =~= deltas@.take(i as int));
        assert(i64::MIN * (i + 1) == i64::MIN * i + i64::MIN) by (nonlinear_arith);
        assert(i64::MAX * (i + 1) == i64::MAX * i + i64::MAX) by (nonlinear_arith);
        if let Some(delta) = deltas[i] {
            sum = sum + delta as i128;
        }
        i += 1;
    }
    assert(deltas@.take(i as int) =~= deltas@);
    if held < i64::MIN as i128 || sum < i64::MIN as i128 || sum > i64::MAX as i128 {
        return Err(fault("bigint out of range"));
    }
    Ok(
        CurrencyActivitySummary {
            currency_id,
            init_amount,
            current_amount: held as i64,
            logged_delta: sum as i64,
        },
    )
}

/// A price above zero is never paid with a debt.
pub proof fn prices_leave_no_debt(balance: StoredBalance, now: Timestamp, price: i64)
    requires
        price > 0,
        worth(balance, now) >= price,
    ensures
        worth(balance, now) - price >= 0,
{
}

/// A balance that is paid with is the one that is shown, where balances grow and it is not below
/// zero.
pub proof fn what_is_shown_can_be_paid_with(balance: StoredBalance, now: Timestamp)
    requires
        balance.growing,
        worth(balance, now) >= 0,
    ensures
        balance.at(now) == worth(balance, now),
{
}

/// What is stored of a balance once its growth up to a time is settled.
pub open spec fn settled(balance: StoredBalance, at: Timestamp) -> StoredBalance {
    let minutes = currency::greatest(currency::minutes_between(balance.utime_at, at), 0);
    StoredBalance {
        amount: currency::greatest(
            0,
            currency::least(balance.amount + minutes * balance.growth, balance.max_amount as int),
        ) as i64,
        utime_at: if balance.utime_at >= at {
            balance.utime_at
        } else {
            at
        },
        ..balance
    }
}

/// Settles the growth of a balance up to a time: it ends between zero and the maximum.
pub fn settle_currency_growth(balance: &StoredBalance, at: Timestamp) -> (r: StoredBalance)
    ensures
        r == settled(*balance, at),
{
    let passed: i128 = whole_minutes(balance.utime_at, at);
    let minutes: i128 = if passed >= 0 {
        passed
    } else {
        0
    };
    let reached: i128 = amount_after(balance, minutes);
    let top: i128 = balance.max_amount as i128;
    let capped: i128 = if reached <= top {
        reached
    } else {
        top
    };
    let amount: i64 = if capped >= 0 {
        capped as i64
    } else {
        0
    };
    StoredBalance {
        amount,
        growth: balance.growth,
        max_amount: balance.max_amount,
        utime_at: if balance.utime_at >= at {
            balance.utime_at
        } else {
            at
        },
        growing: balance.growing,
    }
}

/// From when on a balance grows once growth is switched on at a time.
pub fn enable_currency_growth(utime_at: Timestamp, at: Timestamp) -> (r: Timestamp)
    ensures
        r == (if utime_at >= at {
            utime_at
        } else {
            at
        }),
{
    if utime_at >= at {
        utime_at
    } else {
        at
    }
}

/// Settling keeps what a team has, where that is no debt: what is stored then is what was shown.
pub proof fn settling_keeps_balances(balance: StoredBalance, at: Timestamp)
    requires
        balance.growing,
        balance.amount >= 0,
        balance.max_amount >= 0,
        balance.utime_at <= at,
    ensures
        settled(balance, at).amount == balance.at(at),
        settled(balance, at).utime_at == at,
{
    assert(currency::minutes_between(balance.utime_at, at) >= 0);
}

/// Growth is settled once: to settle it again at the same time changes nothing.
pub proof fn settling_twice_is_settling_once(balance: StoredBalance, at: Timestamp)
    requires
        balance.max_amount >= 0,
    ensures
        settled(settled(balance, at), at) == settled(balance, at),
{
    let once = settled(balance, at);
    assert(currency::minutes_between(once.utime_at, at) <= 0);
    let minutes = currency::greatest(currency::minutes_between(once.utime_at, at), 0);
    assert(minutes == 0);
    assert(minutes * once.growth == 0) by (nonlinear_arith)
        requires
            minutes == 0,
    ;
}

/// What a balance is worth: what was stored, with its growth for each whole minute since, and no more
/// than its bound.
pub proof fn balances_grow_by_the_minute(balance: StoredBalance, now: Timestamp, minutes: int)
    requires
        balance.utime_at + minutes * 60_000_000 <= now < balance.utime_at + (minutes + 1)
            * 60_000_000,
    ensures
        worth(balance, now) <= balance.max_amount,
        worth(balance, now) <= balance.amount + minutes * balance.growth,
        worth(balance, now) == balance.max_amount || worth(balance, now) == balance.amount + minutes
            * balance.growth,
{
    currency::minutes_are_counted(balance.utime_at, now, minutes);
}

/// Changes are summed up, and a change of nothing adds nothing.
pub proof fn changes_are_summed_up(deltas: Seq<Option<i64>>, delta: i64)
    ensures
        total_delta(Seq::empty()) == 0,
        total_delta(deltas.push(Some(delta))) == total_delta(deltas) + delta,
        total_delta(deltas.push(None)) == total_delta(deltas),
{
    assert(deltas.push(Some(delta)).drop_last() =~= deltas);
    assert(deltas.push(None).drop_last() =~= deltas);
}

/// Settling changes the amount and the time of a balance and nothing else; the amount stays between
/// nothing and the bound, and the time never goes back.
pub proof fn settling_changes_amount_and_time(balance: StoredBalance, at: Timestamp)
    requires
        balance.max_amount >= 0,
    ensures
        ({
            let left = settled(balance, at);
            &&& left.growth == balance.growth && left.max_amount == balance.max_amount
                && left.growing == balance.growing
            &&& 0 <= left.amount <= balance.max_amount
            &&& left.utime_at >= balance.utime_at && left.utime_at >= at
            &&& left.utime_at == balance.utime_at || left.utime_at == at
            &&& at < balance.utime_at && 0 <= balance.amount <= balance.max_amount ==> left.amount
                == balance.amount
        }),
{
    if at < balance.utime_at {
        assert((at - balance.utime_at) / 60_000_000 < 0) by (nonlinear_arith)
            requires
                at < balance.utime_at,
        ;
        assert(0 * balance.growth == 0);
    }
}

} // verus!
