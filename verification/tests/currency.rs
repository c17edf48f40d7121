use rbph::db::team::currency::{
    add_currency_locked, admin_update_currency, apply_currency_update, cost_currency_locked,
    currency_cost_change, currency_updated, current_amount, staff_adjust_currency, staff_adjusted,
    strict_currency_next, tidy_reason, AdminTeamCurrencyData, CurrencyCostChange,
    CurrencyEventContext, CurrencyRuntimeRow, PuzzleBackendCurrencyShowData, RbCurrencyShowData,
    StaffAdjustment, StoredBalance, StrictCurrencyBoundary, UpdateCurrencyOptions,
};
use rbph::db::team::growth::get_currency_activity_summary;

#[test]
fn currency_cost_checks_only_the_boundary_for_its_direction() {
    assert_eq!(
        currency_cost_change(110, 100, 10),
        Some(CurrencyCostChange { next_amount: 100, delta: -10 })
    );
    assert_eq!(currency_cost_change(10, 100, 11), None);
    assert_eq!(
        currency_cost_change(-10, 100, -5),
        Some(CurrencyCostChange { next_amount: -5, delta: 5 })
    );
    assert_eq!(currency_cost_change(95, 100, -6), None);
    assert_eq!(
        currency_cost_change(-1, 100, 0),
        Some(CurrencyCostChange { next_amount: -1, delta: 0 })
    );
}

#[test]
fn currency_cost_rejects_negation_and_balance_overflow() {
    assert_eq!(currency_cost_change(0, i64::MAX, i64::MIN), None);
    assert_eq!(currency_cost_change(i64::MIN, i64::MAX, 1), None);
    assert_eq!(currency_cost_change(i64::MAX, i64::MAX, -1), None);
}

#[test]
fn strict_adjustment_allows_negative_balances_and_exact_upper_boundary() {
    assert_eq!(strict_currency_next(10, 100, -10), StrictCurrencyBoundary::Next(0));
    assert_eq!(strict_currency_next(10, 100, -11), StrictCurrencyBoundary::Next(-1));
    assert_eq!(strict_currency_next(10, 100, 90), StrictCurrencyBoundary::Next(100));
}

#[test]
fn strict_adjustment_rejects_upper_bound_and_integer_overflow() {
    assert_eq!(strict_currency_next(10, 100, 91), StrictCurrencyBoundary::AboveMax);
    assert_eq!(
        strict_currency_next(i64::MAX, i64::MAX, 1),
        StrictCurrencyBoundary::Overflow
    );
    assert_eq!(
        strict_currency_next(0, i64::MAX, i64::MIN),
        StrictCurrencyBoundary::Next(i64::MIN)
    );
}

fn coin() -> RbCurrencyShowData {
    RbCurrencyShowData {
        id: 1,
        slug: "coin".to_string(),
        name: "Coin".to_string(),
        growth: 7,
        game_growth: 5,
        team_growth: 2,
        init_amount: 10,
        prec: 0,
        amount: 20,
        current_amount: 21,
        max_amount: 100,
        hidden: false,
        utime_at: 0,
    }
}

#[test]
fn puzzle_backend_currency_exposes_growth_components_only_in_backend_view() {
    let backend = PuzzleBackendCurrencyShowData::from(coin());
    assert_eq!(backend.growth, 7);
    assert_eq!(backend.base_growth, 5);
    assert_eq!(backend.team_growth, 2);
    assert_eq!(backend.initial_amount, 10);
    assert_eq!(backend.precision, 0);
    assert_eq!(backend.current_amount, 21);
    assert_eq!(backend.max_amount, 100);
    assert_eq!(backend.updated_at, 0);
    let staff = AdminTeamCurrencyData::from(coin());
    assert_eq!(staff.game_growth, 5);
    assert_eq!(staff.team_growth, 2);
    assert_eq!(staff.currency.current_amount, 21);
}

fn row(current_amount: i64) -> CurrencyRuntimeRow {
    CurrencyRuntimeRow {
        id: 1,
        game_id: 2,
        slug: "coin".to_string(),
        name: "Coin".to_string(),
        prec: 0,
        current_amount,
        max_amount: 100,
    }
}

#[test]
fn balances_grow_by_whole_minutes_up_to_the_maximum() {
    let mut balance =
        StoredBalance { amount: 10, growth: 3, max_amount: 20, utime_at: 0, growing: true };
    assert_eq!(current_amount(&balance, 59_999_999), 10);
    assert_eq!(current_amount(&balance, 60_000_000), 13);
    assert_eq!(current_amount(&balance, 3_600_000_000), 20);
    balance.growing = false;
    assert_eq!(current_amount(&balance, 3_600_000_000), 10);
    let debt = StoredBalance { amount: -5, growth: -3, max_amount: 20, utime_at: 0, growing: true };
    assert_eq!(current_amount(&debt, 120_000_000), -5);
    let shrinking =
        StoredBalance { amount: 5, growth: -3, max_amount: 20, utime_at: 0, growing: true };
    assert_eq!(current_amount(&shrinking, 120_000_000), 0);
}

#[test]
fn charges_and_refunds_undo_each_other() {
    let (paid, event) = cost_currency_locked(9, &row(30), 10, None).unwrap();
    assert_eq!(paid, 20);
    assert_eq!(event.delta_amount, Some(-10));
    assert_eq!(event.team_id, Some(9));
    let (back, _) = cost_currency_locked(9, &row(paid), -10, None).unwrap();
    assert_eq!(back, 30);
    assert!(cost_currency_locked(9, &row(5), 10, None).is_none());
}

#[test]
fn additions_stay_between_debt_and_maximum() {
    assert_eq!(add_currency_locked(9, &row(30), 100, None).0, 100);
    assert_eq!(add_currency_locked(9, &row(30), -100, None).0, 0);
    assert_eq!(add_currency_locked(9, &row(-4), -100, None).0, -4);
    let (after, grown, event) = add_currency_locked(9, &row(30), 5, None);
    assert_eq!((after, grown), (35, 5));
    assert_eq!(event.delta_amount, Some(5));
}

#[test]
fn staff_adjust_balances_of_their_game() {
    assert_eq!(staff_adjust_currency(&None, 2, true, 1), StaffAdjustment::NotFound);
    assert_eq!(staff_adjust_currency(&Some(row(1)), 3, true, 1), StaffAdjustment::NotFound);
    assert_eq!(staff_adjust_currency(&Some(row(1)), 2, true, 100), StaffAdjustment::AboveMax);
    assert_eq!(
        staff_adjust_currency(&Some(row(i64::MAX)), 2, true, 1),
        StaffAdjustment::Overflow
    );
    assert_eq!(staff_adjust_currency(&Some(row(1)), 2, true, -5), StaffAdjustment::Update(-4));
    let event = staff_adjusted(9, &row(1), -4, 5, Some("why"), "staff");
    assert_eq!(event.delta_amount, Some(-5));
    assert_eq!(tidy_reason(Some("  ")), None);
    assert_eq!(tidy_reason(Some(" a ")), Some("a".to_string()));
    assert_eq!(tidy_reason(None), None);
}

#[test]
fn updates_say_what_they_set() {
    let none = UpdateCurrencyOptions { amount: None, team_growth: None, hidden: Some(true) };
    let update = apply_currency_update(&row(30), &none);
    assert_eq!(update.set_to, None);
    assert_eq!(update.next_amount, 30);
    let some = UpdateCurrencyOptions { amount: Some(40), team_growth: None, hidden: None };
    let update = apply_currency_update(&row(30), &some);
    assert_eq!(update.next_amount, 40);
    assert!(admin_update_currency(&Some(row(30)), 3, &some).is_none());
    let admin = admin_update_currency(&Some(row(30)), 2, &some).unwrap();
    assert_eq!(admin.update.next_amount, 40);
    assert_eq!(admin.log, Some(40));
    let context = CurrencyEventContext { puzzle_id: Some(4), puzzle_title: Some("P"), reason: None };
    let event = currency_updated(9, &row(30), 40, Some(context)).unwrap();
    assert_eq!(event.delta_amount, Some(10));
    assert!(currency_updated(9, &row(i64::MIN), 1, None).is_err());
}

#[test]
fn activity_is_summed_up() {
    let balance =
        StoredBalance { amount: 10, growth: 3, max_amount: 20, utime_at: 0, growing: true };
    let deltas = vec![Some(5), None, Some(-2)];
    let summary = get_currency_activity_summary(7, 4, &balance, 60_000_000, &deltas).unwrap();
    assert_eq!((summary.currency_id, summary.init_amount), (7, 4));
    assert_eq!((summary.current_amount, summary.logged_delta), (13, 3));
    let too_much = vec![Some(i64::MAX), Some(1)];
    assert!(get_currency_activity_summary(7, 4, &balance, 0, &too_much).is_err());
}
