use rbph::db::user::{
    admin_create, admin_list, admin_reset_password, admin_update, change_password,
    credentials_from, get_auth_state_by_id, new_user_from, password_step, pending_from,
    put_pending, register, AdminUserListRow,
    AdminUserResetPasswordResult, AdminUserUpdateData, AdminUserUpdateResult,
    ChangePasswordResult, PasswordStep, RbUserDisplayData, RbUserDisplayRow, UserVerifyData,
};
use rbph::error::RbInternalError;
use rbph::model::user::{avatar_url, AvatarProvider, RbUserRole};

#[test]
fn builds_avatar_urls_from_normalized_email() {
    assert_eq!(
        avatar_url(" Test@Example.com ", AvatarProvider::Cravatar),
        "https://cn.cravatar.com/avatar/55502f40dc8b7c769880b10874abc9d0.png?d=identicon"
    );
    assert_eq!(
        avatar_url(" Test@Example.com ", AvatarProvider::Catavatar),
        "https://puzzle.cat/api/users/avatar/public/55502f40dc8b7c769880b10874abc9d0"
    );
}

#[test]
fn administrators_only_manage_non_admin_roles() {
    assert!(RbUserRole::Admin.can_change_role(None, RbUserRole::Moderator));
    assert!(RbUserRole::Admin.can_change_role(Some(RbUserRole::Moderator), RbUserRole::User));
    assert!(!RbUserRole::Admin.can_change_role(None, RbUserRole::Admin));
    assert!(!RbUserRole::Admin.can_change_role(Some(RbUserRole::Admin), RbUserRole::Moderator));
    assert!(!RbUserRole::Admin.can_change_role(Some(RbUserRole::Moderator), RbUserRole::Admin));
    assert!(RbUserRole::Admin.can_manage_credentials(RbUserRole::Moderator));
    assert!(!RbUserRole::Admin.can_manage_credentials(RbUserRole::Admin));
    assert!(!RbUserRole::Admin.can_manage_credentials(RbUserRole::Root));
}

#[test]
fn root_can_manage_admin_roles() {
    assert!(RbUserRole::Root.can_change_role(None, RbUserRole::Admin));
    assert!(RbUserRole::Root.can_change_role(Some(RbUserRole::Admin), RbUserRole::Moderator));
    assert!(!RbUserRole::Root.can_change_role(None, RbUserRole::Root));
    assert!(!RbUserRole::Root.can_change_role(Some(RbUserRole::User), RbUserRole::Root));
    assert!(!RbUserRole::Root.can_change_role(Some(RbUserRole::Root), RbUserRole::Admin));
    assert!(RbUserRole::Root.can_manage_credentials(RbUserRole::Admin));
    assert!(!RbUserRole::Root.can_manage_credentials(RbUserRole::Root));
}

#[test]
fn roles_read_back_from_their_codes() {
    for code in -2..7i16 {
        assert_eq!(i16::from(RbUserRole::from(code)), code);
    }
    assert_eq!(RbUserRole::from(9), RbUserRole::Invalid(9));
    assert!(RbUserRole::User < RbUserRole::Moderator);
    assert!(!(RbUserRole::Invalid(9) > RbUserRole::User));
}

#[test]
fn passwords_change_by_what_is_known() {
    let stored = register("a@b.c", "old").unwrap();
    assert_eq!(stored.email, "a@b.c");
    let user = UserVerifyData { id: 1, pass: stored.pass, must_change_password: false };
    assert!(matches!(
        change_password(&user, None, "new"),
        Ok(ChangePasswordResult::WrongCurrent)
    ));
    assert!(matches!(
        change_password(&user, Some("other"), "new"),
        Ok(ChangePasswordResult::WrongCurrent)
    ));
    assert!(matches!(
        change_password(&user, Some("old"), "old"),
        Ok(ChangePasswordResult::SamePassword)
    ));
    let changed = match change_password(&user, Some("old"), "new") {
        Ok(ChangePasswordResult::Changed(hash)) => hash,
        _ => panic!("the password should change"),
    };
    assert_ne!(changed, "new");
    let user = UserVerifyData { id: 1, pass: changed, must_change_password: true };
    assert!(matches!(
        change_password(&user, None, "new"),
        Ok(ChangePasswordResult::SamePassword)
    ));
    let broken = UserVerifyData { id: 1, pass: "no hash".to_string(), must_change_password: true };
    assert!(change_password(&broken, None, "new").is_err());
}

#[test]
fn steps_of_a_password_change() {
    assert_eq!(password_step(false, None, None), PasswordStep::WrongCurrent);
    assert_eq!(password_step(false, Some(false), Some(false)), PasswordStep::WrongCurrent);
    assert_eq!(password_step(true, None, None), PasswordStep::CompareNew);
    assert_eq!(password_step(false, Some(true), Some(true)), PasswordStep::SamePassword);
    assert_eq!(password_step(true, None, Some(false)), PasswordStep::Store);
}

#[test]
fn pending_registrations_are_found_by_token_and_address() {
    let pending = put_pending("a@b.c", "secret").unwrap();
    assert_eq!(pending.token.len(), 36);
    assert_eq!(pending.token.as_bytes()[8], b'-');
    assert_eq!(pending.token.as_bytes()[14], b'4');
    assert_eq!(pending.user_key, format!("pending_user:{}", pending.token));
    assert_eq!(pending.email_key, "pending_email:a@b.c");
    assert!(pending.credentials.pass.starts_with("$2"));
    let other = put_pending("a@b.c", "secret").unwrap();
    assert_ne!(pending.token, other.token);
    assert_ne!(pending.credentials.pass, other.credentials.pass);
}

#[test]
fn users_are_shown_with_their_pictures() {
    let row = |provider: i16| RbUserDisplayRow {
        id: 3,
        email: "test@example.com".to_string(),
        urole: 2,
        nickname: "n".to_string(),
        bio: None,
        must_change_password: true,
        avatar_provider: provider,
        ctime_at: 5,
    };
    let shown = RbUserDisplayData::from_row(row(1));
    assert_eq!(shown.urole, RbUserRole::Moderator);
    assert_eq!(shown.avatar_provider, AvatarProvider::Catavatar);
    assert_eq!(
        shown.avatar,
        "https://puzzle.cat/api/users/avatar/public/55502f40dc8b7c769880b10874abc9d0"
    );
    let shown = RbUserDisplayData::from_row(row(44));
    assert_eq!(shown.avatar_provider, AvatarProvider::Cravatar);
    assert!(shown.must_change_password);
    let listed = admin_list(vec![AdminUserListRow {
        id: 8,
        email: "test@example.com".to_string(),
        nickname: "n".to_string(),
        avatar_provider: 1,
        urole: 77,
        must_change_password: false,
        team_count: 2,
        ctime_at: 6,
    }]);
    assert_eq!(listed.len(), 1);
    assert_eq!(listed[0].urole, RbUserRole::Invalid(77));
    assert_eq!(listed[0].avatar, RbUserDisplayData::from_row(row(1)).avatar);
    assert!(get_auth_state_by_id(None).is_none());
    assert_eq!(get_auth_state_by_id(Some((3, true))).unwrap().role, RbUserRole::Admin);
}

#[test]
fn staff_change_users_in_their_limits() {
    let data = |role: RbUserRole| AdminUserUpdateData { email: "x", nickname: "y", bio: None, role };
    let root = RbUserRole::Root;
    let admin = RbUserRole::Admin;
    assert_eq!(
        admin_update(1, admin, 2, None, &data(RbUserRole::User), false),
        AdminUserUpdateResult::NotFound
    );
    assert_eq!(
        admin_update(1, root, 1, Some(4), &data(RbUserRole::User), false),
        AdminUserUpdateResult::SelfRole
    );
    assert_eq!(
        admin_update(1, admin, 2, Some(1), &data(RbUserRole::Admin), false),
        AdminUserUpdateResult::RoleForbidden
    );
    assert_eq!(
        admin_update(1, admin, 2, Some(1), &data(RbUserRole::Moderator), true),
        AdminUserUpdateResult::EmailConflict
    );
    assert_eq!(
        admin_update(1, admin, 2, Some(1), &data(RbUserRole::Moderator), false),
        AdminUserUpdateResult::Updated
    );
    assert!(matches!(
        admin_reset_password(admin, None, "p"),
        Ok(AdminUserResetPasswordResult::NotFound)
    ));
    assert!(matches!(
        admin_reset_password(admin, Some(3), "p"),
        Ok(AdminUserResetPasswordResult::RoleForbidden)
    ));
    assert!(matches!(
        admin_reset_password(admin, Some(1), "p"),
        Ok(AdminUserResetPasswordResult::Reset(hash)) if hash != "p"
    ));
    let made = admin_create("e", "n", &Some("b".to_string()), RbUserRole::Moderator, "p").unwrap();
    assert!(made.must_change_password);
    assert_eq!(made.urole, 2);
    assert_eq!(made.bio.as_deref(), Some("b"));
}

#[test]
fn failures_to_hash_are_handed_on() {
    let failed = || Err(RbInternalError::Other("no randomness".to_string()));
    let hashed = || Ok("h".to_string());
    let stored = credentials_from("a@b.c", hashed()).unwrap();
    assert_eq!((stored.email.as_str(), stored.pass.as_str()), ("a@b.c", "h"));
    assert!(matches!(
        credentials_from("a@b.c", failed()),
        Err(RbInternalError::Other(text)) if text == "no randomness"
    ));
    let pending = pending_from("t".to_string(), "a@b.c", hashed()).unwrap();
    assert_eq!((pending.token.as_str(), pending.user_key.as_str()), ("t", "pending_user:t"));
    assert_eq!(pending.email_key, "pending_email:a@b.c");
    assert_eq!(pending.credentials.email, "a@b.c");
    assert_eq!(pending.credentials.pass, "h");
    assert!(matches!(
        pending_from("t".to_string(), "a@b.c", failed()),
        Err(RbInternalError::Other(text)) if text == "no randomness"
    ));
    let made = new_user_from("e", "n", &None, RbUserRole::Moderator, hashed()).unwrap();
    assert_eq!((made.credentials.email.as_str(), made.credentials.pass.as_str()), ("e", "h"));
    assert_eq!((made.nickname.as_str(), made.bio), ("n", None));
    assert_eq!(made.urole, i16::from(RbUserRole::Moderator));
    assert!(made.must_change_password);
    assert!(matches!(
        new_user_from("e", "n", &None, RbUserRole::Moderator, failed()),
        Err(RbInternalError::Other(text)) if text == "no randomness"
    ));
}
