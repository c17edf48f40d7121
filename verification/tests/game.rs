use rbph::db::feature::{
    leaderboard_changed, list_admin, phase_changes, plan_state, player_states, valid_changes,
    FeatureChangeData, FeatureRow, GameFeature, GameFeatureState, GrowthEffect, LeaderboardEffect,
    StatePlan,
};
use rbph::db::game::{
    create, create_currency, exists_for, game_accessible_for_role, game_accessible_for_user,
    get_game_user_info, list_all, list_show, settles_growth, update, update_currency,
    valid_currency_data, valid_currency_slug, valid_game_title, GameUserInfo, GameUserRow, RbCurrencyCreateData,
    RbCurrencyUpdateData, RbGame, RbGameCreateData, RbGameUpdateData,
};
use rbph::db::round::{
    admin_create, admin_update, get_round_id_by_game_ref, get_round_state, get_round_user_info,
    get_simple_list_for_team, get_state_for_team, stats_visible, RbPuzzleSimpleRow,
    RbPuzzleSolveStatsRow, RbRoundAdminData, RbRoundCreateData, RbRoundSimpleData,
    RbRoundUpdateData, RoundPuzzleRow, RoundRef,
};
use rbph::json::Json;
use rbph::model::game::{
    GameSettingGroup, RbContentType, RbGameSettings, RbGameTeamSettings, RbTeamPuzzleState,
};
use rbph::model::user::RbUserRole;

#[test]
fn validates_feature_state_pairs_and_duplicates() {
    assert!(valid_changes(&[FeatureChangeData {
        feature: GameFeature::DirectMessage,
        state: GameFeatureState::ExistingOnly,
    }]));
    assert!(!valid_changes(&[FeatureChangeData {
        feature: GameFeature::Leaderboard,
        state: GameFeatureState::Open,
    }]));
    assert!(valid_changes(&[FeatureChangeData {
        feature: GameFeature::Currency,
        state: GameFeatureState::Open,
    }]));
    assert!(!valid_changes(&[FeatureChangeData {
        feature: GameFeature::Currency,
        state: GameFeatureState::Live,
    }]));
    assert!(!valid_changes(&[
        FeatureChangeData {
            feature: GameFeature::TeamFormation,
            state: GameFeatureState::Open,
        },
        FeatureChangeData {
            feature: GameFeature::TeamFormation,
            state: GameFeatureState::Closed,
        },
    ]));
}

#[test]
fn feature_states_read_back_from_their_codes() {
    for feature in GameFeature::all() {
        assert_eq!(GameFeature::from_value(feature.value()), Some(feature));
        for state in feature.states() {
            let code = feature.encode_state(state).unwrap();
            assert_eq!(feature.decode_state(code), Some(state));
        }
        assert!(feature.encode_state(feature.default_state()).is_some());
        assert_eq!(feature.decode_state(9), None);
    }
    assert_eq!(GameFeature::from_value(9), None);
    assert_eq!(GameFeature::PuzzleTicket.word(), "puzzle_ticket");
}

#[test]
fn states_are_set_with_their_effects() {
    let lock = FeatureChangeData {
        feature: GameFeature::Leaderboard,
        state: GameFeatureState::Locked,
    };
    assert_eq!(plan_state(&lock, true, 0).unwrap(), StatePlan::Skip);
    assert_eq!(
        plan_state(&lock, false, 1).unwrap(),
        StatePlan::Apply {
            target: 1,
            leaderboard: Some(LeaderboardEffect::Lock),
            growth: None,
            changed: true,
        }
    );
    let close = FeatureChangeData {
        feature: GameFeature::Currency,
        state: GameFeatureState::Closed,
    };
    assert_eq!(
        plan_state(&close, false, 1).unwrap(),
        StatePlan::Apply {
            target: 0,
            leaderboard: None,
            growth: Some(GrowthEffect::Settle),
            changed: true,
        }
    );
    assert_eq!(
        plan_state(&close, false, 0).unwrap(),
        StatePlan::Apply { target: 0, leaderboard: None, growth: None, changed: false }
    );
    let wrong = FeatureChangeData {
        feature: GameFeature::Currency,
        state: GameFeatureState::Live,
    };
    assert!(plan_state(&wrong, false, 0).is_err());
    let changes = phase_changes(&vec![(3, 1), (4, 1)]).unwrap();
    assert_eq!(changes.len(), 2);
    assert_eq!(changes[0].feature, GameFeature::Leaderboard);
    assert!(phase_changes(&vec![(9, 0)]).is_err());
    assert!(phase_changes(&vec![(3, 9)]).is_err());
    assert!(leaderboard_changed(&changes, &vec![true, false]));
    assert!(!leaderboard_changed(&changes, &vec![false, true]));
}

#[test]
fn features_are_listed_with_their_next_change() {
    let row = |feature_type: i16, state: i16, target_state: Option<i16>| FeatureRow {
        feature_type,
        state,
        source_phase_id: None,
        utime_at: 5,
        phase_id: target_state.map(|_| 7),
        phase_title: target_state.map(|_| "next".to_string()),
        target_state,
        release_at: target_state.map(|_| 9),
    };
    let listed = list_admin(&vec![row(0, 1, Some(0)), row(3, 0, None)]).unwrap();
    assert_eq!(listed.len(), 2);
    assert_eq!(listed[0].state, GameFeatureState::Open);
    let next = listed[0].next_change.as_ref().unwrap();
    assert_eq!(next.state, GameFeatureState::Closed);
    assert_eq!(next.phase_id, 7);
    assert_eq!(listed[1].states.len(), 2);
    assert!(listed[1].next_change.is_none());
    assert!(list_admin(&vec![row(9, 0, None)]).is_err());
    assert!(list_admin(&vec![row(0, 9, None)]).is_err());
    assert!(list_admin(&vec![row(0, 0, Some(9))]).is_err());
    let states = player_states(&vec![(4, 1)]).unwrap();
    assert!(states.contains(&(GameFeature::Currency, GameFeatureState::Open)));
    assert!(player_states(&vec![(9, 1)]).is_err());
}

#[test]
fn validates_game_title_length() {
    assert!(!valid_game_title(""));
    assert!(!valid_game_title("   "));
    assert!(valid_game_title("Game"));
    assert!(valid_game_title(&"a".repeat(60)));
    assert!(!valid_game_title(&"a".repeat(61)));
}

#[test]
fn active_games_are_accessible_to_players() {
    assert!(game_accessible_for_role(true, RbUserRole::User));
    assert!(game_accessible_for_role(true, RbUserRole::Moderator));
}

#[test]
fn only_admins_can_access_inactive_games() {
    assert!(!game_accessible_for_role(false, RbUserRole::User));
    assert!(!game_accessible_for_role(false, RbUserRole::Moderator));
    assert!(game_accessible_for_role(false, RbUserRole::Admin));
}

#[test]
fn beta_team_members_can_access_inactive_games() {
    assert!(game_accessible_for_user(false, RbUserRole::User, true));
    assert!(game_accessible_for_user(false, RbUserRole::Moderator, true));
    assert!(!game_accessible_for_user(false, RbUserRole::User, false));
}

#[test]
fn games_exist_for_those_who_may_see_them() {
    assert!(!exists_for(None, RbUserRole::Root));
    assert!(!exists_for(Some(false), RbUserRole::User));
    assert!(exists_for(Some(false), RbUserRole::Admin));
    let row = GameUserRow { is_active: false, team_id: Some(3), is_beta: true };
    let info = get_game_user_info(Some(row), 8, RbUserRole::User).unwrap();
    assert_eq!((info.game_id, info.team_id), (8, Some(3)));
    let row = GameUserRow { is_active: false, team_id: None, is_beta: false };
    assert!(get_game_user_info(Some(row), 8, RbUserRole::User).is_none());
    assert!(get_game_user_info(None, 8, RbUserRole::Root).is_none());
}

#[test]
fn currencies_have_limits() {
    assert!(valid_currency_slug("a-b_9"));
    assert!(!valid_currency_slug(""));
    assert!(!valid_currency_slug("A"));
    assert!(!valid_currency_slug(&"a".repeat(41)));
    assert!(valid_currency_data("Coin", "coin", 6, 0, 10));
    assert!(!valid_currency_data(" ", "coin", 6, 0, 10));
    assert!(!valid_currency_data("Coin", "coin", 7, 0, 10));
    assert!(!valid_currency_data("Coin", "coin", 6, 11, 10));
    assert!(!valid_currency_data("Coin", "coin", 6, -1, 10));
    assert!(settles_growth(1, 2, 1));
    assert!(!settles_growth(1, 2, 0));
    assert!(!settles_growth(2, 2, 1));
}

#[test]
fn game_lists_are_narrowed() {
    assert_eq!(
        list_show(true, false),
        "SELECT g.id, g.title, g.cover FROM rb_game g WHERE 1=1 AND g.is_listed = true ORDER BY g.id"
    );
    assert!(list_all(false, true).ends_with(" WHERE 1=1 AND g.is_active = true ORDER BY g.id"));
}

#[test]
fn delayed_stats_threshold_uses_either_limit() {
    assert!(stats_visible(0, 4));
    assert!(!stats_visible(0, 5));
    assert!(stats_visible(1, 9));
    assert!(!stats_visible(49, 1000));
    assert!(stats_visible(50, 1000));
}

#[test]
fn counts_are_shown_with_their_puzzles() {
    let rows = || {
        vec![RbPuzzleSimpleRow {
            id: 4,
            slug: None,
            title: "t".to_string(),
            state: RbTeamPuzzleState::Unlocked,
            answer: None,
        }]
    };
    let stats = vec![RbPuzzleSolveStatsRow { puzzle_id: 4, solved: 2, tried: 3, unlocked: 5 }];
    let shown = get_state_for_team(rows(), &stats, false, 1000);
    assert_eq!(shown[0].solve_stats.as_ref().unwrap().solved, 2);
    let shown = get_state_for_team(rows(), &stats, true, 1000);
    assert!(shown[0].solve_stats.is_none());
    let shown = get_state_for_team(rows(), &stats, true, 3);
    assert_eq!(shown[0].solve_stats.as_ref().unwrap().tried, 3);
}

#[test]
fn rounds_are_found_by_number_or_slug() {
    assert!(matches!(get_round_id_by_game_ref("12"), RoundRef::Id(12)));
    assert!(matches!(get_round_id_by_game_ref("intro"), RoundRef::Slug));
    assert!(matches!(get_round_id_by_game_ref("99999999999"), RoundRef::Slug));
}

#[test]
fn staff_change_rounds() {
    let round = || RbRoundAdminData {
        id: 2,
        slug: Some("old".to_string()),
        sort: 1,
        title: "Old".to_string(),
        description: Some("d".to_string()),
        cover: None,
        game_id: 1,
        puzzle: None,
    };
    let change = || RbRoundUpdateData {
        slug: Some(None),
        sort: None,
        title: None,
        description: None,
        cover: Some(Some("c".to_string())),
        puzzle: Some(Some(4)),
    };
    let changed = admin_update(round(), change(), Some(2)).unwrap();
    assert_eq!(changed.slug, None);
    assert_eq!(changed.description.as_deref(), Some("d"));
    assert_eq!(changed.cover.as_deref(), Some("c"));
    assert_eq!(changed.puzzle, Some(4));
    // The puzzle that opens a round is one of the round.
    assert!(admin_update(round(), change(), Some(3)).is_none());
    assert!(admin_update(round(), change(), None).is_none());
    let new = |puzzle: Option<i32>| RbRoundCreateData {
        game_id: 1,
        slug: None,
        sort: 0,
        title: "T".to_string(),
        description: None,
        content: "c".to_string(),
        content_type: 1,
        cover: None,
        puzzle,
    };
    assert!(admin_create(&new(None), true));
    assert!(!admin_create(&new(None), false));
    assert!(!admin_create(&new(Some(4)), true));
}

#[test]
fn rounds_open_with_their_puzzles() {
    let row = |round_id: i32, state: i16, release_at: i64| RoundPuzzleRow {
        round_id,
        state,
        release_at,
    };
    let rows = vec![row(1, -1, 0), row(2, 0, 5), row(3, 1, 50)];
    assert!(!get_round_state(&rows, 1, false, 10));
    assert!(get_round_state(&rows, 2, false, 10));
    assert!(!get_round_state(&rows, 2, true, 10));
    assert!(!get_round_state(&rows, 3, false, 10));
    let rounds: Vec<RbRoundSimpleData> = (1..4)
        .map(|id| RbRoundSimpleData { id, slug: None, title: "t".to_string(), description: None })
        .collect();
    let open = get_simple_list_for_team(rounds, &rows, 60);
    assert_eq!(open.iter().map(|round| round.id).collect::<Vec<_>>(), vec![2, 3]);
}

#[test]
fn games_are_created_and_changed() {
    let new = create(RbGameCreateData {
        title: "G".to_string(),
        cover: None,
        is_listed: true,
        is_active: false,
        settings: Some(object(vec![])),
    });
    assert_eq!(new.title, "G");
    assert!(new.is_listed && !new.is_active);
    assert!(field(&new.settings, "team").is_some());
    let game = RbGame {
        id: 1,
        title: "G".to_string(),
        cover: Some("c".to_string()),
        is_listed: true,
        is_active: true,
        settings: new.settings,
        ctime_at: 0,
    };
    let changed = update(
        game,
        RbGameUpdateData {
            title: None,
            cover: Some(None),
            is_listed: Some(false),
            is_active: None,
            settings: Some(object(vec![("x", Json::integer(1))])),
        },
    );
    assert_eq!(changed.title, "G");
    assert_eq!(changed.cover, None);
    assert!(!changed.is_listed && changed.is_active);
    assert_eq!(field(&changed.settings, "x").and_then(|x| x.as_i64()), Some(1));
}

#[test]
fn currencies_are_created_and_changed() {
    let stored = create_currency(
        3,
        RbCurrencyCreateData {
            name: "Coins".to_string(),
            slug: "coins".to_string(),
            growth: 2,
            init_amount: 10,
            init_hidden: false,
            prec: 0,
            max_amount: 100,
        },
    );
    assert_eq!((stored.id, stored.growth, stored.max_amount), (3, 2, 100));
    let data = |growth: i64| RbCurrencyUpdateData {
        name: "Coins".to_string(),
        slug: "coins".to_string(),
        growth,
        init_amount: 10,
        init_hidden: false,
        prec: 0,
        max_amount: 100,
    };
    // Balances are settled before a growth changes that they follow.
    let (changed, settles) = update_currency(3, Some((2, 2)), data(5)).unwrap();
    assert_eq!((changed.growth, settles), (5, settles_growth(2, 5, 2)));
    assert!(!update_currency(3, Some((5, 2)), data(5)).unwrap().1);
    assert!(update_currency(3, None, data(5)).is_none());
}

fn object(entries: Vec<(&str, Json)>) -> Json {
    Json::Object(entries.into_iter().map(|(k, v)| (k.to_string(), v)).collect())
}

fn field<'a>(value: &'a Json, key: &str) -> Option<&'a Json> {
    match value {
        Json::Object(entries) => entries.iter().find(|(k, _)| k == key).map(|(_, v)| v),
        _ => None,
    }
}

#[test]
fn settings_are_merged_over_their_defaults() {
    assert_eq!(RbGameTeamSettings::default().max_members, 6);
    assert_eq!(RbGameTeamSettings { max_members: 0 }.sanitize().max_members, 6);
    assert_eq!(RbGameTeamSettings::path(), vec!["team".to_string()]);
    let patch = object(vec![("team", object(vec![("max_members", Json::integer(9))]))]);
    assert!(RbGameSettings::validate_patch(&patch));
    let merged = RbGameSettings::with_defaults(Some(patch));
    let members = field(field(&merged, "team").unwrap(), "max_members").unwrap();
    assert_eq!(members.as_i64(), Some(9));
    assert!(!RbGameSettings::validate_patch(&Json::integer(1)));
    assert_eq!(RbGameTeamSettings::decoded(None).max_members, 6);
}

#[test]
fn patches_remove_what_they_null() {
    let base = object(vec![("a", Json::integer(1)), ("b", Json::text("x"))]);
    let patch = object(vec![("a", Json::Null), ("c", Json::Bool(true))]);
    let merged = Json::merge_patch(base, patch);
    assert!(field(&merged, "a").is_none());
    assert!(matches!(field(&merged, "b"), Some(Json::Text(s)) if s == "x"));
    assert!(matches!(field(&merged, "c"), Some(Json::Bool(true))));
    assert!(Json::merge_patch(Json::integer(1), Json::Null).is_null());
}

#[test]
fn content_types_read_back_from_their_codes() {
    for code in 0..3i16 {
        assert_eq!(i16::from(RbContentType::from(code)), code);
    }
    assert!(RbContentType::from(1).is_trusted());
    assert!(RbContentType::from(0).is_trusted());
    assert!(!RbContentType::from(2).is_trusted());
    assert!(RbTeamPuzzleState::Unlocked.accessible());
    assert!(!RbTeamPuzzleState::Locked.accessible());
}

#[test]
fn rounds_belong_to_the_game_of_the_team() {
    let info = || Some(GameUserInfo { game_id: 1, team_id: Some(2) });
    assert_eq!(get_round_user_info(Some(1), info(), true).unwrap().team_id, Some(2));
    assert!(get_round_user_info(Some(1), info(), false).is_none());
    assert!(get_round_user_info(None, info(), true).is_none());
    let alone = Some(GameUserInfo { game_id: 1, team_id: None });
    assert!(get_round_user_info(Some(1), alone, true).is_none());
}
