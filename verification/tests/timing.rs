use rbph::db::board::LeaderBoardTeamRow;
use rbph::db::puzzle::timing::{
    get_hints_show_for_team, has_access, may_answer, sync_due_hints, HintRow,
};
use rbph::db::ranking::rank_teams;
use rbph::db::solve_stats::{get_solve_stats_for_round, AnswerRow, TeamPuzzleRow};
use rbph::db::team::currency::{current_amount, StoredBalance};
use rbph::db::team::growth::{
    charge_penalty, charge_price, combined_growth, enable_currency_growth, settle_currency_growth,
    Payment,
};

const SECOND: i64 = 1_000_000;

#[test]
fn puzzles_take_answers_in_time() {
    assert!(has_access(0, 5, false, 5));
    assert!(!has_access(-1, 5, false, 5));
    assert!(!has_access(0, 6, false, 5));
    assert!(!has_access(0, 5, true, 5));
    assert_eq!(may_answer(None, None, 0, 99, 5).unwrap(), true);
    assert_eq!(may_answer(Some(6), None, 0, 0, 5).unwrap(), false);
    assert_eq!(may_answer(Some(5), Some(3), 1, 3, 5).unwrap(), true);
    assert_eq!(may_answer(None, Some(3), 1, 4, 5).unwrap(), false);
    assert!(may_answer(None, Some(i32::MAX), 1, 0, 5).is_err());
}

fn hint() -> HintRow {
    HintRow {
        id: 1,
        title: "T".to_string(),
        title_hidden: true,
        cooldown: 60,
        cooldown_after_enable: false,
        has_condition: false,
        cost_id: None,
        cost_amount: 0,
        enabled_at: None,
        purchased_at: None,
        state: 0,
        opened_at: 10 * SECOND,
        release_at: 0,
    }
}

#[test]
fn hints_open_after_their_cooldown() {
    let rows = vec![hint()];
    let shown = get_hints_show_for_team(&rows, 20 * SECOND).unwrap();
    assert_eq!(shown.len(), 1);
    assert_eq!(shown[0].title, None);
    assert_eq!(shown[0].available_at, 70 * SECOND);
    assert!(!rows[0].is_offered(69 * SECOND));
    assert!(rows[0].is_offered(70 * SECOND));
    let shown = get_hints_show_for_team(&rows, 70 * SECOND).unwrap();
    assert_eq!(shown[0].title.as_deref(), Some("T"));
    assert_eq!(sync_due_hints(&rows, 20 * SECOND), Some(70 * SECOND));
    assert_eq!(sync_due_hints(&rows, 70 * SECOND), None);
}

#[test]
fn hints_wait_for_their_condition() {
    let waiting = HintRow { has_condition: true, cooldown_after_enable: true, ..hint() };
    assert!(!waiting.is_listed(100 * SECOND));
    let met = HintRow {
        has_condition: true,
        cooldown_after_enable: true,
        enabled_at: Some(30 * SECOND),
        ..hint()
    };
    assert!(met.is_listed(100 * SECOND));
    assert!(!met.is_offered(89 * SECOND));
    assert!(met.is_offered(90 * SECOND));
    let bought = HintRow {
        has_condition: true,
        cooldown_after_enable: true,
        purchased_at: Some(40 * SECOND),
        ..hint()
    };
    assert!(bought.is_listed(100 * SECOND));
    assert!(!bought.is_offered(200 * SECOND));
    assert_eq!(
        get_hints_show_for_team(&vec![bought], 100 * SECOND).unwrap()[0].available_at,
        100 * SECOND
    );
    let unknown = HintRow { cooldown_after_enable: true, ..hint() };
    assert!(get_hints_show_for_team(&vec![unknown], 100 * SECOND).is_err());
    let locked = HintRow { state: -1, cooldown_after_enable: true, ..hint() };
    assert!(get_hints_show_for_team(&vec![locked], 100 * SECOND).unwrap().is_empty());
}

#[test]
fn teams_are_ranked_by_finish_solves_and_time() {
    let team = |id: i32, finish_at: Option<i64>, solves: i64, last_solved_at: Option<i64>| {
        LeaderBoardTeamRow {
            id,
            name: String::new(),
            bio: String::new(),
            finish_at,
            last_solved_at,
            solves,
        }
    };
    let ranked = rank_teams(vec![
        team(1, None, 9, None),
        team(2, None, 9, Some(4)),
        team(3, Some(8), 1, Some(8)),
        team(4, None, 10, Some(9)),
        team(5, Some(7), 1, None),
        team(6, None, 9, Some(4)),
        team(7, None, 0, None),
    ]);
    let ids: Vec<i32> = ranked.iter().map(|t| t.id).collect();
    assert_eq!(ids, vec![5, 3, 4, 2, 6, 1, 7]);
}

#[test]
fn solve_stats_count_distinct_eligible_teams() {
    let mut rows = vec![];
    for index in 0..6 {
        let state = match index {
            0 | 5 => 1,
            4 => -1,
            _ => 0,
        };
        rows.push(TeamPuzzleRow { team_id: index, puzzle_id: 7, state, is_banned: index == 5 });
    }
    let answers = vec![
        AnswerRow { team_id: 1, puzzle_id: 7, ignored: false },
        AnswerRow { team_id: 1, puzzle_id: 7, ignored: false },
        AnswerRow { team_id: 2, puzzle_id: 7, ignored: true },
    ];
    let stats = get_solve_stats_for_round(&vec![7, 8], &rows, &answers);
    assert_eq!(stats.len(), 1);
    let stats = &stats[0];
    assert_eq!(stats.solved, 1);
    assert_eq!(stats.tried, 2);
    assert_eq!(stats.unlocked, 4);
    assert!(stats.solved <= stats.tried && stats.tried <= stats.unlocked);
}

#[test]
fn balances_are_paid_with_and_settled() {
    let balance =
        StoredBalance { amount: 10, growth: 2, max_amount: 15, utime_at: 0, growing: true };
    assert_eq!(
        charge_price(&balance, 120 * SECOND, 14).unwrap(),
        Some(Payment { before: 14, after: 0 })
    );
    assert_eq!(charge_price(&balance, 120 * SECOND, 15).unwrap(), None);
    assert_eq!(
        charge_price(&balance, 240 * SECOND, -5).unwrap(),
        Some(Payment { before: 15, after: 20 })
    );
    assert_eq!(
        charge_penalty(&balance, 0, 25).unwrap(),
        Payment { before: 10, after: -15 }
    );
    assert!(charge_penalty(&balance, 0, i64::MIN).is_err());
    let settled = settle_currency_growth(&balance, 120 * SECOND);
    assert_eq!((settled.amount, settled.utime_at), (14, 120 * SECOND));
    assert_eq!(settled.amount, current_amount(&balance, 120 * SECOND));
    let debt = StoredBalance { amount: -4, ..balance };
    assert_eq!(settle_currency_growth(&debt, 60 * SECOND).amount, 0);
    assert_eq!(settle_currency_growth(&balance, -60 * SECOND).utime_at, 0);
    assert_eq!(enable_currency_growth(5, 9), 9);
    assert_eq!(enable_currency_growth(9, 5), 9);
    assert_eq!(combined_growth(2, -3).unwrap(), -1);
    assert!(combined_growth(i64::MAX, 1).is_err());
}
