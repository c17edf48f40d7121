use rbph::db::feature::GameFeature;
use rbph::error::RbInternalError;
use rbph::db::team::members::{kick_member, leave, promote_member, Membership};
use rbph::db::team::{
    admin_add_member, admin_create, admin_delete, admin_promote_member, admin_remove_member,
    admin_update, check_features, check_join, check_remove_member, check_room, disband, join,
    member_joined, member_kicked, team_features, team_member, team_updated, user_create,
    user_update, AdminMemberResult, AdminTeamCreateResult, AdminTeamFeatureDataInput,
    AdminTeamUpdateData, RbTeamMemberRow, StoredTeam, TeamAccessRow, TeamCreateResult, TeamFeatureRow,
    TeamJoinResult, TeamJoinRow, UserUpdateData,
};

fn team(is_banned: bool, team_open: bool) -> Option<TeamJoinRow> {
    Some(TeamJoinRow { is_banned, pass: "p".to_string(), game_id: 1, team_open })
}

#[test]
fn joining_a_team_is_refused_in_order() {
    assert_eq!(check_join(&None, "p"), Some(TeamJoinResult::NotFound));
    assert_eq!(check_join(&team(true, false), "x"), Some(TeamJoinResult::NotOpen));
    assert_eq!(check_join(&team(true, true), "x"), Some(TeamJoinResult::Banned));
    assert_eq!(check_join(&team(false, true), "x"), Some(TeamJoinResult::WrongPwd));
    assert_eq!(check_join(&team(false, true), "p"), None);
    assert_eq!(check_room(Some(Some(3)), 3).unwrap(), Some(TeamJoinResult::TeamFull));
    assert_eq!(check_room(Some(Some(3)), 2).unwrap(), None);
    assert_eq!(check_room(Some(None), 99).unwrap(), None);
    assert!(check_room(None, 0).is_err());
    assert_eq!(join(true), TeamJoinResult::Joined);
    assert_eq!(join(false), TeamJoinResult::ToMany);
    assert_eq!(TeamJoinResult::Joined.code(), 0);
    assert_eq!(user_create(None, 4, true), TeamCreateResult::NotOpen);
    assert_eq!(user_create(Some(true), 4, false), TeamCreateResult::ToMany);
    assert_eq!(user_create(Some(true), 4, true), TeamCreateResult::Created(4));
}

fn change(name: Option<&str>, pass: Option<&str>, bio: Option<&str>) -> UserUpdateData {
    UserUpdateData {
        name: name.map(|s| s.to_string()),
        pass: pass.map(|s| s.to_string()),
        bio: bio.map(|s| s.to_string()),
    }
}

#[test]
fn captains_change_their_team() {
    assert!(user_update(&change(None, None, None)).is_none());
    assert_eq!(
        user_update(&change(Some("n"), None, Some("b"))).unwrap(),
        "UPDATE rb_team SET name = $1, bio = $2 WHERE id = (SELECT team_id FROM rb_team_member tm \
         WHERE user_id = $3 AND game_id = $4 AND is_captain) AND NOT is_locked RETURNING id;"
    );
    assert!(!user_update(&change(None, Some("p"), None)).unwrap().contains("is_locked"));
    assert!(change(Some("n"), None, None).valid());
    assert!(!change(Some(""), None, None).valid());
    let event = team_updated(&change(Some("n"), None, None), 1, 2, 3);
    assert_eq!(event.team_id, Some(2));
    assert_eq!(member_joined(1, 2, 3).event_type, "team.member.joined");
    let kicked = member_kicked(1, 2, 3);
    assert_eq!(kicked.game_id, Some(1));
}

#[test]
fn members_are_shown_with_their_pictures() {
    let shown = team_member(RbTeamMemberRow {
        id: 1,
        is_captain: true,
        nickname: "n".to_string(),
        email: "test@example.com".to_string(),
        avatar_provider: 1,
        ctime_at: 3,
    });
    assert_eq!(
        shown.avatar,
        "https://puzzle.cat/api/users/avatar/public/55502f40dc8b7c769880b10874abc9d0"
    );
    assert!(!disband(&vec![]));
    assert!(disband(&vec![1]));
}

fn wish(is_banned: Option<bool>) -> AdminTeamUpdateData {
    AdminTeamUpdateData {
        name: None,
        pass: None,
        bio: None,
        is_banned,
        is_locked: None,
        is_beta: None,
        features: None,
        reason: None,
    }
}

#[test]
fn staff_change_teams() {
    let current = || {
        Some(StoredTeam {
            name: "n".to_string(),
            pass: "p".to_string(),
            bio: "b".to_string(),
            access: TeamAccessRow { is_banned: false, is_locked: false, is_beta: true },
        })
    };
    let row = |feature: GameFeature, enabled: bool| TeamFeatureRow {
        feature_type: feature.value(),
        enabled,
    };
    let rows = || vec![row(GameFeature::DirectMessage, true)];
    let same = admin_update(1, 2, 3, current(), rows(), &wish(Some(false))).unwrap().unwrap();
    assert!(same.event.is_none());
    let banned = admin_update(1, 2, 3, current(), rows(), &wish(Some(true))).unwrap().unwrap();
    let event = banned.event.unwrap();
    assert_eq!(event.team_id, Some(2));
    assert!(banned.team.access.is_banned && banned.team.access.is_beta && !banned.marks_dirty);
    assert_eq!((banned.team.name.as_str(), banned.team.bio.as_str()), ("n", "b"));
    assert_eq!(banned.features, rows());
    let named = |feature: GameFeature, enabled: bool| AdminTeamFeatureDataInput { feature, enabled };
    let mut more = wish(None);
    more.name = Some("m".to_string());
    more.is_locked = Some(true);
    more.features = Some(vec![
        named(GameFeature::Leaderboard, false),
        named(GameFeature::DirectMessage, false),
    ]);
    let changed = admin_update(1, 2, 3, current(), rows(), &more).unwrap().unwrap();
    assert_eq!((changed.team.name.as_str(), changed.team.pass.as_str()), ("m", "p"));
    assert!(changed.marks_dirty && changed.team.access.is_locked);
    assert_eq!(
        changed.features,
        [row(GameFeature::DirectMessage, false), row(GameFeature::Leaderboard, false)]
    );
    assert!(admin_update(1, 2, 3, None, rows(), &more).unwrap().is_none());
    more.features = Some(vec![named(GameFeature::Currency, false)]);
    assert!(matches!(
        admin_update(1, 2, 3, None, rows(), &more),
        Err(RbInternalError::Other(text)) if text == "Invalid team feature update"
    ));
    assert!(wish(None).valid());
    let input = |feature: GameFeature| AdminTeamFeatureDataInput { feature, enabled: false };
    assert!(check_features(&Some(vec![input(GameFeature::DirectMessage)])).is_ok());
    assert!(check_features(&Some(vec![input(GameFeature::Currency)])).is_err());
    assert!(check_features(&None).is_ok());
    let features = team_features(&vec![TeamFeatureRow {
        feature_type: GameFeature::DirectMessage.value(),
        enabled: false,
    }]);
    assert!(features
        .iter()
        .any(|f| f.feature == GameFeature::DirectMessage && !f.enabled));
}

#[test]
fn staff_change_members() {
    assert_eq!(admin_create(false, false, Some(1)), AdminTeamCreateResult::NotFound);
    assert_eq!(admin_create(true, true, Some(1)), AdminTeamCreateResult::UserConflict);
    assert_eq!(admin_create(true, false, Some(1)), AdminTeamCreateResult::Created(1));
    assert_eq!(admin_add_member(true, true, true), AdminMemberResult::Done);
    assert_eq!(admin_add_member(true, true, false), AdminMemberResult::Conflict);
    assert_eq!(admin_add_member(false, true, true), AdminMemberResult::NotFound);
    assert_eq!(check_remove_member(true, 1), Some(AdminMemberResult::LastMember));
    assert_eq!(check_remove_member(true, 2), None);
    assert_eq!(admin_remove_member(true, 2, true, false), (AdminMemberResult::Done, true));
    assert_eq!(admin_remove_member(true, 2, true, true), (AdminMemberResult::Done, false));
    assert_eq!(admin_promote_member(false), AdminMemberResult::NotFound);
    assert_eq!(admin_delete(vec![]), None);
    assert_eq!(admin_delete(vec![4]), Some(vec![4]));
}

#[test]
fn members_part_and_lead() {
    let member = |user_id: i32, is_captain: bool| Membership { user_id, is_captain };
    let members = vec![member(1, true), member(2, false), member(3, false)];
    assert_eq!(leave(&members, false, 2), Some(vec![member(1, true), member(3, false)]));
    assert_eq!(leave(&members, true, 2), None);
    assert_eq!(leave(&members, false, 9), None);
    assert_eq!(kick_member(&members, false, 3), Some(vec![member(1, true), member(2, false)]));
    assert_eq!(kick_member(&members, true, 3), None);
    assert_eq!(
        promote_member(&members, 2),
        Some(vec![member(1, false), member(2, true), member(3, false)])
    );
    assert_eq!(promote_member(&members, 9), None);
}
