use rbph::db::game::GameUserInfo;
use rbph::db::pool_password;
use rbph::db::system_settings::{
    disable_unavailable_auth_features, update, SystemSettings, SystemSettingsUpdate,
};
use rbph::db::user::UserAuthState;
use rbph::extractor::auth::AuthUser;
use rbph::health::{live, ready};
use rbph::middleware::cluster::is_served;
use rbph::middleware::maintenance::{is_exempt, is_open, is_served_for};
use rbph::middleware::privilege::{Passage, PrivilegeMiddleware};
use rbph::model::user::RbUserRole;
use rbph::schema::embedded_schema_generation;

#[test]
fn only_required_routes_bypass_maintenance() {
    assert!(is_exempt("/api/system/status"));
    assert!(is_exempt("/api/auth/login"));
    assert!(is_exempt("/api/auth/logout"));
    assert!(is_exempt("/api/user/info"));
    assert!(!is_exempt("/api/auth/register"));
    assert!(!is_exempt("/api/games/1"));
    assert!(!is_exempt("/api/admin/system-settings"));
}

#[test]
fn maintenance_leaves_the_server_to_administrators() {
    assert!(is_open(false, "/api/games/1"));
    assert!(is_open(true, "/api/auth/login"));
    assert!(!is_open(true, "/api/games/1"));
    let auth = |role: RbUserRole| Some(UserAuthState { role, must_change_password: false });
    assert!(is_served_for(true, auth(RbUserRole::Admin)));
    assert!(is_served_for(true, auth(RbUserRole::Root)));
    assert!(!is_served_for(true, auth(RbUserRole::Moderator)));
    assert!(!is_served_for(true, auth(RbUserRole::Invalid(9))));
    assert!(!is_served_for(false, auth(RbUserRole::Admin)));
    assert!(!is_served_for(true, None));
}

#[test]
fn probes_are_served_before_the_server_is_ready() {
    assert!(is_served("/health/live", false));
    assert!(is_served("/health/ready", false));
    assert!(!is_served("/api/games/1", false));
    assert!(is_served("/api/games/1", true));
}

#[test]
fn requests_need_the_required_role() {
    let m = PrivilegeMiddleware::new(RbUserRole::Moderator);
    assert_eq!(m.decide(false, Some(RbUserRole::Root)), Passage::EndSession);
    assert_eq!(m.decide(true, None), Passage::Unauthorized);
    assert_eq!(m.decide(true, Some(RbUserRole::User)), Passage::Forbidden);
    assert_eq!(m.decide(true, Some(RbUserRole::Invalid(9))), Passage::Forbidden);
    assert_eq!(
        m.decide(true, Some(RbUserRole::Moderator)),
        Passage::Serve(RbUserRole::Moderator)
    );
    assert_eq!(m.decide(true, Some(RbUserRole::Root)), Passage::Serve(RbUserRole::Root));
}

#[test]
fn users_without_what_was_looked_up_are_refused() {
    let user = AuthUser::from_session(Some(4), None, None).unwrap();
    assert_eq!(user.uid, 4);
    assert!(user.req_role().is_err());
    assert!(user.req_team_id().is_err());
    let game = GameUserInfo { game_id: 1, team_id: Some(3) };
    let user = AuthUser::from_session(Some(4), Some(RbUserRole::User), Some(game)).unwrap();
    assert_eq!(user.req_role().unwrap(), RbUserRole::User);
    assert_eq!(user.req_team_id().unwrap(), Some(3));
    let refused = AuthUser::from_session(None, None, None).unwrap_err();
    assert_eq!((refused.code, refused.status_code), (-101, 401));
    assert_eq!(refused.message.as_deref(), Some("Unauthorized"));
}

#[test]
fn health_needs_every_part() {
    assert_eq!(live().status, "ok");
    assert_eq!(ready(true, true, true).status, "ready");
    assert_eq!(ready(true, true, true).status_code, 200);
    assert_eq!(ready(false, true, true).status, "not_ready");
    assert_eq!(ready(true, false, true).status_code, 503);
    assert_eq!(ready(true, true, false).status_code, 503);
}

#[test]
fn the_newest_migration_names_the_schema() {
    assert_eq!(embedded_schema_generation(&vec![3]), 3);
    assert_eq!(embedded_schema_generation(&vec![3, 20250101, 7]), 20250101);
    assert_eq!(pool_password(&None), None);
    assert_eq!(pool_password(&Some(String::new())), None);
    assert_eq!(pool_password(&Some("x".to_string())), Some("x"));
}

fn settings() -> SystemSettings {
    SystemSettings {
        registration_open: true,
        require_email_verification: true,
        captcha_login_required: true,
        captcha_registration_required: false,
        max_sessions: 3,
        max_websocket_connections: 4,
        maintenance_enabled: false,
        maintenance_message: "m".to_string(),
        updated_by: Some(1),
        updated_at: 10,
    }
}

#[test]
fn what_the_server_cannot_do_is_switched_off() {
    let same = disable_unavailable_auth_features(settings(), true, true, 20);
    assert_eq!(same.updated_at, 10);
    assert!(same.require_email_verification && same.captcha_login_required);
    let without_mail = disable_unavailable_auth_features(settings(), true, false, 20);
    assert!(!without_mail.require_email_verification);
    assert!(without_mail.captcha_login_required);
    assert_eq!(without_mail.updated_at, 20);
    let without_captcha = disable_unavailable_auth_features(settings(), false, true, 20);
    assert!(!without_captcha.captcha_login_required);
    assert!(without_captcha.require_email_verification);
    let updated = update(
        &SystemSettingsUpdate {
            registration_open: false,
            require_email_verification: false,
            captcha_login_required: false,
            captcha_registration_required: true,
            max_sessions: 1,
            max_websocket_connections: 2,
            maintenance_enabled: true,
            maintenance_message: "back soon",
            updated_by: 7,
        },
        30,
    );
    assert_eq!(updated.maintenance_message, "back soon");
    assert_eq!(updated.updated_by, Some(7));
    assert_eq!(updated.updated_at, 30);
}
