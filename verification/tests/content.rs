use rbph::db::anmt::{
    admin_create, attach_show_puzzles, load_puzzles, AnnouncementPuzzleRow, AnnouncementShowRow,
    AnnouncementWriteData,
};
use rbph::db::audience::{
    list_all_for_public, list_all_for_team, list_for_team_puzzle, AnnouncementLink,
    AnnouncementListRow,
};
use rbph::db::board::{
    build_snapshot, fetch_teams, get_info, must_reset, wait_for_snapshot, wanted_version,
    LeaderBoardTeamRow, MemberRow,
};
use rbph::db::content::{
    admin_clear_artifact, admin_clear_unlocks, admin_puzzles_exist, admin_reorder,
    admin_set_artifact, admin_update,
    has_address, makes_stale, needs_refresh, refresh_team_unlocks, reordered_places, revision, visible_for_team,
    BlockCondition, BlockUnlock, ContentBlockArtifact, ContentBlockUpdate, RbContentBlockAdminData,
};
use rbph::db::feature::{FeatureChangeData, GameFeature, GameFeatureState};
use rbph::db::content;
use rbph::db::release;
use rbph::db::release::{
    content_turns_stale, delete_admin, event_cache_targets, get_admin, list_admin, list_player, load_changes,
    mark_notified, materialize_due, next_delay_seconds, pending_notifications, release_cursor,
    released_puzzles, replace_changes, sync_cursor, sync_event,
    sync_start, update_admin, DueRow, FeatureChangeRow, NotedRelease,
    PendingReleaseEvent, PlayerReleasePhaseRow, ReleaseEventRow,
    ReleasePhaseAdminRow, ReleasePhaseCreateData, ReleasePhaseUpdateData, ReleaseTarget,
    ReleasedPuzzleData, ReleasedPuzzleRow, RELEASE_EVENT_IMMEDIATE_PUZZLES, RELEASE_EVENT_PHASE,
    RELEASE_VISIBILITY_HIDDEN, RELEASE_VISIBILITY_PUBLIC,
};
use rbph::db::states::{PuzzleRow, RoundRow};
use rbph::expr::ast::GateExpr;
use rbph::expr::CompileCache;
use rbph::model::game::RbContentType;

fn block(id: i32, content: &str) -> RbContentBlockAdminData {
    RbContentBlockAdminData {
        id,
        puzzle_id: Some(1),
        round_id: None,
        sort: id,
        name: "n".to_string(),
        content: content.to_string(),
        content_type: 1,
        cdn_backend: None,
        cdn_object_key: None,
        cdn_relative_path: None,
        cdn_sha256: None,
        cdn_size: None,
        visibility_cond: None,
        ctime_at: 0,
        utime_at: 0,
    }
}

#[test]
fn blocks_are_shown_with_their_revision() {
    let blocks = vec![block(1, "abc"), block(2, "x")];
    let shown = visible_for_team(&blocks, &vec![1, 2], &vec![None, Some("u".to_string())]);
    assert_eq!(shown.len(), 2);
    assert_eq!(shown[0].content, "abc");
    assert_eq!(shown[0].revision, revision(1, "abc"));
    assert_eq!(shown[0].revision.len(), 64);
    assert_ne!(revision(1, "abc"), revision(0, "abc"));
    assert_ne!(revision(1, "abc"), "abc");
    assert_eq!(shown[1].content_url.as_deref(), Some("u"));
    let mut hidden = block(3, "h");
    hidden.visibility_cond = Some("(solved 1)".to_string());
    let shown = visible_for_team(&vec![hidden], &vec![], &vec![None]);
    assert!(shown.is_empty());
    assert!(!has_address(&block(1, "a"), true));
}

#[test]
fn blocks_open_where_their_conditions_hold() {
    let mut cache: CompileCache<GateExpr> = CompileCache::new();
    let condition = |id: i32, cond: &str| BlockCondition {
        id,
        visibility_cond: Some(cond.to_string()),
    };
    let rounds = vec![RoundRow { id: 1, slug: None }];
    let puzzles = vec![PuzzleRow {
        id: 1,
        slug: Some("intro".to_string()),
        round_id: 1,
        round_puzzle_id: None,
        unlock_cond: None,
    }];
    let opened = refresh_team_unlocks(
        &mut cache,
        &vec![condition(5, "(solved intro)"), condition(6, "(solved 9)"), condition(7, "(true)")],
        &vec![7],
        &vec![1],
        &rounds,
        &puzzles,
        &vec![],
        true,
    );
    assert_eq!(opened, vec![5]);
    assert!(needs_refresh(Some(true)));
    assert!(!needs_refresh(Some(false)));
    assert!(makes_stale(true, &Some(None), Some("(true)")));
    assert!(!makes_stale(true, &Some(Some("(true)".to_string())), Some("(true)")));
    assert!(admin_reorder(&vec![1, 2, 3], &vec![3, 1, 2]));
    assert!(!admin_reorder(&vec![1, 2, 3], &vec![3, 1]));
    assert!(!admin_reorder(&vec![1, 2], &vec![1, 1]));
    assert!(admin_puzzles_exist(Some(2), 2));
    assert!(!admin_puzzles_exist(Some(1), 2));
}

#[test]
fn announcements_carry_their_puzzles() {
    let puzzle = |announcement_id: i32, id: i32| AnnouncementPuzzleRow {
        announcement_id,
        id,
        slug: None,
        title: "P".to_string(),
        round_id: 1,
        round_slug: None,
        is_round_puzzle: false,
    };
    let rows = vec![puzzle(1, 10), puzzle(2, 11), puzzle(1, 12)];
    let listed = load_puzzles(&rows, 1);
    assert_eq!(listed.len(), 2);
    assert_eq!((listed[0].id, listed[1].id), (10, 12));
    let shown = attach_show_puzzles(
        vec![AnnouncementShowRow {
            id: 2,
            title: "t".to_string(),
            content: "c".to_string(),
            content_type: RbContentType::Markdown,
            is_pinned: false,
            game_id: None,
            utime_at: 0,
        }],
        &rows,
    );
    assert_eq!(shown[0].puzzles[0].id, 11);
    assert!(admin_create(None).is_err());
    let data = AnnouncementWriteData {
        title: " t ".to_string(),
        content: String::new(),
        content_type: RbContentType::Html,
        is_pinned: false,
        is_shown: true,
        game_id: None,
        puzzle_ids: vec![],
    };
    assert_eq!(data.stored_title(), "t");
}

#[test]
fn leaderboards_are_read_in_pages() {
    let row = |id: i32| LeaderBoardTeamRow {
        id,
        name: format!("t{id}"),
        bio: String::new(),
        finish_at: None,
        last_solved_at: None,
        solves: 1,
    };
    let members = vec![
        MemberRow { team_id: 2, nickname: "a".to_string() },
        MemberRow { team_id: 1, nickname: "b".to_string() },
        MemberRow { team_id: 2, nickname: "c".to_string() },
    ];
    let teams = fetch_teams(vec![row(1), row(2), row(3)], &members);
    assert_eq!(teams[1].members, vec!["a", "c"]);
    let snapshot = build_snapshot(teams, None, 8);
    assert_eq!(snapshot.order, vec![1, 2, 3]);
    let page = get_info(&snapshot, false, None, 0, 2).unwrap();
    assert_eq!(page.data.len(), 2);
    assert_eq!(page.data[1].rank, 2);
    assert!(page.has_more);
    assert_eq!((page.total, page.state), (3, "live"));
    let page = get_info(&snapshot, false, Some(8), 2, 2).unwrap();
    assert_eq!(page.data.len(), 1);
    assert_eq!(page.data[0].rank, 3);
    assert!(!page.has_more);
    assert!(get_info(&snapshot, false, Some(8), 0, 2).is_none());
    assert_eq!(wanted_version(Some(8), 2), Some(8));
    assert_eq!(wanted_version(Some(8), 0), None);
    assert!(must_reset(false, 2));
    assert!(!must_reset(true, 2));
}

#[test]
fn releases_change_features() {
    let change = FeatureChangeData { feature: GameFeature::Currency, state: GameFeatureState::Open };
    let stored = replace_changes(&vec![change]).unwrap();
    assert_eq!(stored, vec![(4, 1)]);
    let loaded = load_changes(&vec![FeatureChangeRow {
        phase_id: 7,
        feature_type: stored[0].0,
        target_state: stored[0].1,
    }])
    .unwrap();
    assert_eq!(loaded[0].0, 7);
    assert_eq!(loaded[0].1, change);
    let wrong = FeatureChangeData { feature: GameFeature::Currency, state: GameFeatureState::Live };
    assert!(replace_changes(&vec![wrong]).is_err());
    assert!(load_changes(&vec![FeatureChangeRow { phase_id: 7, feature_type: 9, target_state: 0 }])
        .is_err());
    let phases = list_admin(
        vec![ReleasePhaseAdminRow {
            id: 7,
            game_id: 1,
            title: "t".to_string(),
            description: String::new(),
            content_type: RbContentType::Markdown,
            release_at: 0,
            visibility: 1,
            puzzle_count: 0,
            released: false,
        }],
        &loaded,
    );
    assert_eq!(phases[0].feature_changes, vec![change]);
    assert_eq!(get_admin(&phases, 7), Some(0));
    assert_eq!(get_admin(&phases, 8), None);
    assert_eq!(next_delay_seconds(Some(-3)), Some(0));
    assert_eq!(next_delay_seconds(Some(3)), Some(3));
    assert_eq!(next_delay_seconds(None), None);
}

#[test]
fn releases_are_told_once() {
    let row = |id: i64, event_type: i16, phase_id: Option<i32>| ReleaseEventRow {
        id,
        occurred_at: 5,
        phase_id,
        event_type,
    };
    assert_eq!(sync_start(-4), 0);
    assert_eq!(sync_cursor(&vec![row(8, 0, None), row(9, 0, None)], 3), 9);
    assert_eq!(sync_cursor(&vec![], 3), 3);
    assert!(sync_event(row(1, RELEASE_EVENT_PHASE, None), None, vec![]).is_err());
    assert!(sync_event(row(1, RELEASE_EVENT_PHASE, Some(2)), None, vec![]).is_err());
    assert!(sync_event(row(1, 77, None), None, vec![]).is_err());
    assert!(sync_event(row(1, RELEASE_EVENT_IMMEDIATE_PUZZLES, None), None, vec![])
        .unwrap()
        .is_none());
}

#[test]
fn blocks_are_changed() {
    let data = |cond: Option<&'static str>| ContentBlockUpdate {
        name: "m",
        content: "y",
        content_type: 0,
        visibility_cond: cond,
        update_artifact: false,
        artifact: None,
    };
    let change = admin_update(block(1, "x"), data(None), 9);
    assert!(!change.stale);
    assert_eq!((change.block.name.as_str(), change.block.content.as_str()), ("m", "y"));
    assert_eq!((change.block.sort, change.block.utime_at), (1, 9));
    assert!(admin_update(block(1, "x"), data(Some("(true)")), 9).stale);
    let artifact = ContentBlockArtifact {
        backend: "b",
        object_key: "k",
        relative_path: "p",
        sha256: "h",
        size: 3,
    };
    let stored = admin_set_artifact(block(1, "x"), artifact, 9);
    assert_eq!(stored.artifact_delete().unwrap().object_key, "k");
    let kept = admin_update(stored, data(None), 10).block;
    assert_eq!(kept.cdn_size, Some(3));
    let cleared = admin_clear_artifact(kept, 11);
    assert!(cleared.artifact_delete().is_none());
    assert_eq!(cleared.content, "y");
}

#[test]
fn new_blocks_come_behind_the_others() {
    assert_eq!(content::admin_create(Some(1), None, true, &vec![]).unwrap(), Some(0));
    assert_eq!(content::admin_create(None, Some(2), true, &vec![4, 9, 2]).unwrap(), Some(10));
    assert_eq!(content::admin_create(Some(1), Some(2), true, &vec![]).unwrap(), None);
    assert_eq!(content::admin_create(None, None, true, &vec![]).unwrap(), None);
    assert_eq!(content::admin_create(Some(1), None, false, &vec![]).unwrap(), None);
    assert!(content::admin_create(Some(1), None, true, &vec![i32::MAX]).is_err());
}

fn phase_row(id: i32, puzzle_count: i64) -> ReleasePhaseAdminRow {
    ReleasePhaseAdminRow {
        id,
        game_id: 1,
        title: "t".to_string(),
        description: "d".to_string(),
        content_type: RbContentType::Markdown,
        release_at: 10,
        visibility: RELEASE_VISIBILITY_HIDDEN,
        puzzle_count,
        released: false,
    }
}

#[test]
fn staff_change_phases() {
    let change = |title: Option<&str>, state: Option<GameFeatureState>| ReleasePhaseUpdateData {
        title: title.map(|t| t.to_string()),
        description: None,
        content_type: None,
        release_at: Some(20),
        visibility: None,
        feature_changes: state
            .map(|state| vec![FeatureChangeData { feature: GameFeature::Currency, state }]),
    };
    let changed = update_admin(Some(phase_row(1, 0)), change(Some(" new "), None)).unwrap().unwrap();
    assert_eq!(changed.phase.title, "new");
    assert_eq!((changed.phase.description.as_str(), changed.phase.release_at), ("d", 20));
    assert!(changed.changes.is_none());
    let changed =
        update_admin(Some(phase_row(1, 0)), change(None, Some(GameFeatureState::Open))).unwrap().unwrap();
    assert_eq!(changed.changes.unwrap().len(), 1);
    assert!(update_admin(Some(phase_row(1, 0)), change(None, Some(GameFeatureState::Live))).is_err());
    assert!(update_admin(None, change(None, Some(GameFeatureState::Live))).unwrap().is_none());
    let data = || ReleasePhaseCreateData {
        title: " t ".to_string(),
        description: String::new(),
        content_type: RbContentType::Markdown,
        release_at: 10,
        visibility: RELEASE_VISIBILITY_PUBLIC,
        feature_changes: vec![],
    };
    assert_eq!(release::create_admin(data(), true).unwrap().unwrap().title, "t");
    assert!(release::create_admin(data(), false).unwrap().is_none());
    assert!(delete_admin(&Some(phase_row(1, 0))));
    assert!(!delete_admin(&Some(phase_row(1, 2))));
    assert!(!delete_admin(&None));
}

#[test]
fn releases_are_noted_when_due() {
    let row = |id: i32, release_at: i64, released: bool| DueRow { id, release_at, released };
    let rows = vec![row(1, 5, true), row(2, 6, false), row(3, 7, false), row(4, 8, false)];
    assert_eq!(materialize_due(&rows, 7), vec![2, 3]);
    assert!(materialize_due(&vec![row(2, 6, true)], 7).is_empty());
    let player = |id: i32, visibility: i16, released: bool| PlayerReleasePhaseRow {
        id,
        title: "t".to_string(),
        description: "d".to_string(),
        content_type: RbContentType::Markdown,
        release_at: 10,
        visibility,
        released,
    };
    let phases = || {
        vec![
            player(1, RELEASE_VISIBILITY_HIDDEN, false),
            player(2, RELEASE_VISIBILITY_PUBLIC, false),
            player(3, RELEASE_VISIBILITY_HIDDEN, true),
        ]
    };
    let ids = |now: i64| list_player(phases(), now).iter().map(|p| p.id).collect::<Vec<_>>();
    assert_eq!(ids(9), vec![2, 3]);
    assert_eq!(ids(10), vec![1, 2, 3]);
}

#[test]
fn releases_concern_their_puzzles() {
    let target = |puzzle_id: i32, round_id: i32, phase: Option<i32>, is_named: bool| ReleaseTarget {
        puzzle_id,
        round_id,
        release_phase_id: phase,
        is_named,
    };
    let targets = vec![
        target(1, 8, Some(5), false),
        target(2, 8, Some(5), true),
        target(3, 9, None, true),
        target(4, 7, Some(6), false),
    ];
    assert_eq!(event_cache_targets(&targets, Some(5)), (vec![1, 2], vec![8]));
    assert_eq!(event_cache_targets(&targets, None), (vec![2, 3], vec![8, 9]));
    let row = |id: i32, state: i16, phase: Option<i32>, is_named: bool| ReleasedPuzzleRow {
        puzzle: ReleasedPuzzleData {
            id,
            slug: None,
            title: "t".to_string(),
            round_id: 1,
            round_slug: None,
            is_round_puzzle: false,
        },
        state,
        release_phase_id: phase,
        is_named,
        immediate_release_at: if is_named { Some(3) } else { None },
    };
    let rows = || {
        vec![row(1, 0, Some(5), false), row(2, -1, Some(5), false), row(3, 1, None, true)]
    };
    assert!(content_turns_stale(&vec![row(1, 0, Some(5), false)], Some(5)));
    assert!(!content_turns_stale(&vec![row(1, 0, Some(5), false)], Some(6)));
    assert!(!content_turns_stale(&vec![row(1, 0, None, false)], None));
    assert!(!content_turns_stale(&vec![row(2, -1, Some(5), true)], Some(5)));
    assert!(content_turns_stale(&vec![row(2, -1, Some(5), true), row(3, 1, None, true)], None));
    let event = |event_type: i16, phase_id: Option<i32>| ReleaseEventRow {
        id: 1,
        occurred_at: 4,
        phase_id,
        event_type,
    };
    let told = |event: ReleaseEventRow| {
        released_puzzles(rows(), event).iter().map(|p| p.id).collect::<Vec<_>>()
    };
    assert_eq!(told(event(RELEASE_EVENT_PHASE, Some(5))), vec![1]);
    assert_eq!(told(event(RELEASE_EVENT_IMMEDIATE_PUZZLES, None)), vec![3]);
    assert!(told(event(9, Some(5))).is_empty());
}

#[test]
fn pending_releases_are_told_once() {
    let event = |id: i64| PendingReleaseEvent { id, phase_id: None, game_id: 1, occurred_at: 2 };
    let noted = |id: i64, notified_at: Option<i64>| NotedRelease { event: event(id), notified_at };
    let rows = vec![noted(1, Some(3)), noted(2, None), noted(3, None)];
    assert_eq!(pending_notifications(&rows), vec![event(2), event(3)]);
    assert_eq!(mark_notified(noted(2, None), 9).notified_at, Some(9));
    assert_eq!(mark_notified(noted(1, Some(3)), 9).notified_at, Some(3));
    assert_eq!(release_cursor(&vec![4, 9, 2]), 9);
    assert_eq!(release_cursor(&vec![]), 0);
}

#[test]
fn announcements_have_their_audiences() {
    let row = |id: i32, is_pinned: bool, game_id: Option<i32>, utime_at: i64, is_shown: bool| {
        AnnouncementListRow {
            row: AnnouncementShowRow {
                id,
                title: "t".to_string(),
                content: "c".to_string(),
                content_type: RbContentType::Markdown,
                is_pinned,
                game_id,
                utime_at,
            },
            is_shown,
        }
    };
    let rows = || {
        vec![
            row(1, false, None, 5, true),
            row(2, true, Some(7), 1, true),
            row(3, false, Some(7), 9, true),
            row(4, false, Some(7), 8, false),
            row(5, false, Some(8), 8, true),
            row(6, false, Some(7), 7, true),
        ]
    };
    let link = |announcement_id: i32, puzzle_id: i32, at: Option<i64>, state: Option<i16>| {
        AnnouncementLink { announcement_id, puzzle_id, phase_release_at: at, state }
    };
    let links = vec![link(3, 30, Some(5), Some(0)), link(6, 31, Some(50), Some(0))];
    let mention = AnnouncementPuzzleRow {
        announcement_id: 3,
        id: 30,
        slug: None,
        title: "P".to_string(),
        round_id: 2,
        round_slug: None,
        is_round_puzzle: false,
    };
    let puzzles = vec![mention];
    let public = list_all_for_public(rows(), &links, 7, 10, &puzzles);
    assert_eq!(public.iter().map(|a| a.id).collect::<Vec<_>>(), vec![2, 1]);
    let team = list_all_for_team(rows(), &links, 7, 10, &puzzles);
    assert_eq!(team.iter().map(|a| a.id).collect::<Vec<_>>(), vec![2, 3, 1]);
    assert_eq!(team[1].puzzles[0].id, 30);
    let later = list_all_for_team(rows(), &links, 7, 60, &puzzles);
    assert_eq!(later.iter().map(|a| a.id).collect::<Vec<_>>(), vec![2, 3, 6, 1]);
    let about = list_for_team_puzzle(rows(), &links, 7, 31, 10, &puzzles);
    assert_eq!(about.iter().map(|a| a.id).collect::<Vec<_>>(), vec![6]);
}

#[test]
fn blocks_are_locked_again_for_all_teams() {
    let unlock = |team_id, content_block_id| BlockUnlock { team_id, content_block_id };
    let unlocks = vec![unlock(9, 1), unlock(4, 2), unlock(4, 1), unlock(9, 1)];
    let cleared = admin_clear_unlocks(&unlocks, 1);
    assert_eq!(cleared.kept, [unlock(4, 2)]);
    assert_eq!(cleared.deleted, 3);
    assert_eq!(cleared.stale, [4, 9]);
    let again = admin_clear_unlocks(&cleared.kept, 1);
    assert_eq!((again.kept, again.deleted, again.stale), (vec![unlock(4, 2)], 0, vec![]));
}

#[test]
fn blocks_take_the_places_at_which_they_are_named() {
    assert!(admin_reorder(&vec![4, 9, 2], &vec![9, 2, 4]));
    assert_eq!(reordered_places(&vec![9, 2, 4]), [(9, 0), (2, 1), (4, 2)]);
    assert!(reordered_places(&vec![]).is_empty());
}

#[test]
fn snapshots_are_waited_for_five_times() {
    let waits: Vec<Option<u64>> = (0..7).map(wait_for_snapshot).collect();
    assert_eq!(waits, [Some(50), Some(50), Some(50), Some(50), Some(50), None, None]);
}
