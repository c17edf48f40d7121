//! Accounts: passwords, pending registrations, and what staff may change of them.
use uuid::Uuid;
use vstd::prelude::*;
use vstd::string::*;

use crate::model::user;
use crate::clock::Timestamp;
use crate::error::RbInternalError;
use crate::game::judge;
use crate::game::judge::copy_text;
use crate::model::user::{avatar_url, AvatarProvider, RbUserRole};
use crate::text;

verus! {

/// How long a registration waits for its mail address to be confirmed.
pub const PENDING_TTL_SECONDS: u64 = 900;

/// Whether a password is the one that a hash was made from, or nothing where the hash cannot be
/// read.
pub uninterp spec fn password_verdict(password: Seq<char>, hash: Seq<char>) -> Option<bool>;

/// `bcrypt::verify`: reads cost and salt from the hash, hashes the password with them and compares;
/// it fails where the hash has not the form of one. What the error says is left open.
#[verifier::external_body]
fn verify_password(password: &str, hash: &str) -> (r: Result<bool, RbInternalError>)
    ensures
        match r {
            Ok(verdict) => password_verdict(password@, hash@) == Some(verdict),
            Err(_) => password_verdict(password@, hash@) is None,
        },
{
    bcrypt::verify(password, hash).map_err(|e| RbInternalError::Other(e.to_string()))
}

/// `bcrypt::hash` at `bcrypt::DEFAULT_COST`: a hash with a random salt, against which
/// `bcrypt::verify` accepts the password. It fails where the system has no randomness to give.
#[verifier::external_body]
fn hash_password(password: &str) -> (r: Result<String, RbInternalError>)
    ensures
        r matches Ok(hash) ==> password_verdict(password@, hash@) == Some(true),
{
    bcrypt::hash(password, bcrypt::DEFAULT_COST).map_err(|e| RbInternalError::Other(e.to_string()))
}

pub open spec fn is_hex_char(c: char) -> bool {
    text::is_digit(c) || 'a' <= c <= 'f'
}

/// The form of a token: 32 hexadecimal digits in groups of 8, 4, 4, 4 and 12.
pub open spec fn is_token(s: Seq<char>) -> bool {
    s.len() == 36 && forall|i: int|
        0 <= i < 36 ==> if i == 8 || i == 13 || i == 18 || i == 23 {
            #[trigger] s[i] == '-'
        } else {
            is_hex_char(s[i])
        }
}

/// `uuid::Uuid::new_v4`, written with hyphens and lowercase digits; which digits is a matter of
/// chance.
#[verifier::external_body]
fn new_token() -> (r: String)
    ensures
        is_token(r@),
{
    Uuid::new_v4().to_string()
}

/// What is stored of a user who registers.
#[derive(Debug)]
pub struct Credentials {
    pub email: String,
    pub pass: String,
}

impl Credentials {
    /// Whether these let a user in who knows a password.
    pub open spec fn lets_in(self, email: Seq<char>, password: Seq<char>) -> bool {
        self.email@ == email && password_verdict(password, self.pass@) == Some(true)
    }
}

/// What to store of a user who registers, once the password has been hashed. Where that failed, the
/// failure is handed on.
pub fn credentials_from(email: &str, hashed: Result<String, RbInternalError>) -> (r: Result<
    Credentials,
    RbInternalError,
>)
    ensures
        match hashed {
            Ok(hash) => r matches Ok(c) && c.email@ == email@ && c.pass == hash,
            Err(e) => r == Err::<Credentials, RbInternalError>(e),
        },
{
    match hashed {
        Ok(pass) => Ok(Credentials { email: email.to_owned(), pass }),
        Err(e) => Err(e),
    }
}

/// What to store of a user who registers with a password. It fails only where the password cannot
/// be hashed, which rests with the randomness that the system has to give.
pub fn register(email: &str, pass: &str) -> (r: Result<Credentials, RbInternalError>)
    ensures
        r matches Ok(c) ==> c.lets_in(email@, pass@),
{
    credentials_from(email, hash_password(pass))
}

/// Where the registration that waits under a token is stored.
pub open spec fn pending_user(token: Seq<char>) -> Seq<char> {
    "pending_user:"@ + token
}

/// Where the token of a mail address that waits is stored.
pub open spec fn pending_email(email: Seq<char>) -> Seq<char> {
    "pending_email:"@ + email
}

pub fn pending_user_key(token: &str) -> (r: String)
    ensures
        r@ == pending_user(token@),
{
    let mut r = "pending_user:".to_owned();
    r.append(token);
    r
}

pub fn pending_email_key(email: &str) -> (r: String)
    ensures
        r@ == pending_email(email@),
{
    let mut r = "pending_email:".to_owned();
    r.append(email);
    r
}

/// No registration is stored where a token is, and neither two registrations nor two tokens share
/// a place.
pub proof fn pending_keys_are_distinct(a: Seq<char>, b: Seq<char>)
    ensures
        pending_user(a) != pending_email(b),
        a != b ==> pending_user(a) != pending_user(b),
        a != b ==> pending_email(a) != pending_email(b),
{
    reveal_strlit("pending_user:");
    reveal_strlit("pending_email:");
    assert(pending_user(a)[8] == 'u');
    assert(pending_email(b)[8] == 'e');
    assert(pending_user(a).skip(13) == a);
    assert(pending_user(b).skip(13) == b);
    assert(pending_email(a).skip(14) == a);
    assert(pending_email(b).skip(14) == b);
}

/// A registration that waits for its mail address to be confirmed: under `user_key` the credentials
/// are stored, and under `email_key` the token, both for `PENDING_TTL_SECONDS`.
#[derive(Debug)]
pub struct PendingRegistration {
    pub token: String,
    pub user_key: String,
    pub email_key: String,
    pub credentials: Credentials,
}

/// What to store of a registration that waits, under the token it was given.
pub fn pending_with_token(token: String, credentials: Credentials) -> (r: PendingRegistration)
    ensures
        r.token == token,
        r.user_key@ == pending_user(token@),
        r.email_key@ == pending_email(credentials.email@),
        r.credentials == credentials,
{
    let user_key = pending_user_key(&token);
    let email_key = pending_email_key(&credentials.email);
    PendingRegistration { token, user_key, email_key, credentials }
}

/// What to store of a registration that waits, once it has its token and the password has been
/// hashed. Where that failed, the failure is handed on.
pub fn pending_from(token: String, email: &str, hashed: Result<String, RbInternalError>) -> (r:
    Result<PendingRegistration, RbInternalError>)
    ensures
        match hashed {
            Ok(hash) => r matches Ok(p) && {
                &&& p.token == token
                &&& p.user_key@ == pending_user(token@)
                &&& p.email_key@ == pending_email(email@)
                &&& p.credentials.email@ == email@
                &&& p.credentials.pass == hash
            },
            Err(e) => r == Err::<PendingRegistration, RbInternalError>(e),
        },
{
    match credentials_from(email, hashed) {
        Ok(credentials) => Ok(pending_with_token(token, credentials)),
        Err(e) => Err(e),
    }
}

/// What to store of a registration that waits. It fails only where the password cannot be hashed.
pub fn put_pending(email: &str, pass: &str) -> (r: Result<PendingRegistration, RbInternalError>)
    ensures
        r matches Ok(p) ==> {
            &&& is_token(p.token@)
            &&& p.user_key@ == pending_user(p.token@)
            &&& p.email_key@ == pending_email(email@)
            &&& p.credentials.lets_in(email@, pass@)
        },
{
    let token = new_token();
    pending_from(token, email, hash_password(pass))
}

/// What is needed to check a password.
#[derive(Debug)]
pub struct UserVerifyData {
    pub id: i32,
    pub pass: String,
    pub must_change_password: bool,
}

/// How a change of a password ended.
#[derive(Debug)]
pub enum ChangePasswordResult {
    WrongCurrent,
    SamePassword,
    /// The hash to store; the user need not change the password any more.
    Changed(String),
}

/// What a change of a password depends on next.
#[derive(Debug, Clone, Copy, PartialEq, Eq, Structural)]
pub enum PasswordStep {
    WrongCurrent,
    /// Whether the new password is the stored one.
    CompareNew,
    SamePassword,
    Store,
}

/// Whether a user has shown to know the stored password, or need not.
pub open spec fn current_accepted(must_change: bool, current: Option<bool>) -> bool {
    must_change || current == Some(true)
}

/// What follows from the verdict on the current password, where one was given, and, once that is
/// known, on the new one.
pub open spec fn step_of_change(
    must_change: bool,
    current: Option<bool>,
    same: Option<bool>,
) -> PasswordStep {
    if !current_accepted(must_change, current) {
        PasswordStep::WrongCurrent
    } else {
        match same {
            None => PasswordStep::CompareNew,
            Some(true) => PasswordStep::SamePassword,
            Some(false) => PasswordStep::Store,
        }
    }
}

pub fn password_step(must_change: bool, current: Option<bool>, same: Option<bool>) -> (r:
    PasswordStep)
    ensures
        r == step_of_change(must_change, current, same),
{
    let known = match current {
        Some(verdict) => verdict,
        None => false,
    };
    if !must_change && !known {
        return PasswordStep::WrongCurrent;
    }
    match same {
        None => PasswordStep::CompareNew,
        Some(same) => if same {
            PasswordStep::SamePassword
        } else {
            PasswordStep::Store
        },
    }
}

/// Whether a current password was given that the stored hash does not speak of.
pub open spec fn current_unreadable(
    must_change: bool,
    current: Option<Seq<char>>,
    hash: Seq<char>,
) -> bool {
    !must_change && (current matches Some(c) && password_verdict(c, hash) is None)
}

/// The verdict on the current password, where one was given.
pub open spec fn current_verdict(current: Option<Seq<char>>, hash: Seq<char>) -> Option<bool> {
    match current {
        Some(c) => password_verdict(c, hash),
        None => None,
    }
}

/// Changes a password: the current one is asked for unless it must be changed, and the new one must
/// be another.
pub fn change_password(
    stored: &UserVerifyData,
    current_password: Option<&str>,
    new_password: &str,
) -> (r: Result<ChangePasswordResult, RbInternalError>)
    ensures
        ({
            let current = match current_password {
                Some(c) => Some(c@),
                None => None,
            };
            let unreadable = current_unreadable(
                stored.must_change_password,
                current,
                stored.pass@,
            );
            let accepted = current_accepted(
                stored.must_change_password,
                current_verdict(current, stored.pass@),
            );
            let same = password_verdict(new_password@, stored.pass@);
            &&& (r matches Ok(ChangePasswordResult::WrongCurrent)) <==> !unreadable && !accepted
            &&& (r matches Ok(ChangePasswordResult::SamePassword)) <==> accepted && same == Some(true)
            &&& r matches Ok(ChangePasswordResult::Changed(hash)) ==> {
                &&& accepted && same == Some(false)
                &&& password_verdict(new_password@, hash@) == Some(true)
            }
            &&& r is Err ==> unreadable || (accepted && same != Some(true))
        }),
{
    let must_change = stored.must_change_password;
    let mut current: Option<bool> = None;
    if !must_change {
        if let Some(password) = current_password {
            match verify_password(password, &stored.pass) {
                Ok(verdict) => {
                    current = Some(verdict);
                },
                Err(e) => {
                    return Err(e);
                },
            }
        }
    }
    if password_step(must_change, current, None) == PasswordStep::WrongCurrent {
        return Ok(ChangePasswordResult::WrongCurrent);
    }
    match verify_password(new_password, &stored.pass) {
        Err(e) => Err(e),
        Ok(same) => {
            if password_step(must_change, current, Some(same)) == PasswordStep::SamePassword {
                Ok(ChangePasswordResult::SamePassword)
            } else {
                match hash_password(new_password) {
                    Ok(hash) => Ok(ChangePasswordResult::Changed(hash)),
                    Err(e) => Err(e),
                }
            }
        },
    }
}

/// A password that was just stored is no new password: where it must not be changed and the same one
/// is asked for again, the change is refused as one to the same password.
pub proof fn a_stored_password_is_not_new(password: Seq<char>, hash: Seq<char>, must_change: bool)
    requires
        password_verdict(password, hash) == Some(true),
    ensures
        step_of_change(
            must_change,
            current_verdict(Some(password), hash),
            password_verdict(password, hash),
        ) is SamePassword,
{
}

/// A user as the user is shown to themselves.
#[derive(Debug)]
pub struct RbUserDisplayData {
    pub id: i32,
    pub email: String,
    pub urole: RbUserRole,
    pub nickname: String,
    pub bio: Option<String>,
    pub must_change_password: bool,
    pub avatar: String,
    pub avatar_provider: AvatarProvider,
    pub ctime_at: Timestamp,
}

#[derive(Debug)]
pub struct RbUserDisplayRow {
    pub id: i32,
    pub email: String,
    pub urole: i16,
    pub nickname: String,
    pub bio: Option<String>,
    pub must_change_password: bool,
    pub avatar_provider: i16,
    pub ctime_at: Timestamp,
}

/// The address of the picture of a user, by the number of the provider in storage.
pub open spec fn avatar_of(email: Seq<char>, provider: i16) -> Seq<char> {
    user::avatar_address(user::mail_digest(email), AvatarProvider::stored(provider))
}

impl RbUserDisplayData {
    pub fn from_row(user: RbUserDisplayRow) -> (r: Self)
        ensures
            r.avatar@ == avatar_of(user.email@, user.avatar_provider),
            r == (RbUserDisplayData {
                id: user.id,
                email: user.email,
                urole: RbUserRole::from_code(user.urole),
                nickname: user.nickname,
                bio: user.bio,
                must_change_password: user.must_change_password,
                avatar: r.avatar,
                avatar_provider: AvatarProvider::stored(user.avatar_provider),
                ctime_at: user.ctime_at,
            }),
    {
        let avatar_provider = AvatarProvider::from_stored(user.avatar_provider);
        let avatar = avatar_url(&user.email, avatar_provider);
        RbUserDisplayData {
            id: user.id,
            email: user.email,
            urole: RbUserRole::from(user.urole),
            nickname: user.nickname,
            bio: user.bio,
            must_change_password: user.must_change_password,
            avatar,
            avatar_provider,
            ctime_at: user.ctime_at,
        }
    }
}

/// What a session may do.
#[derive(Debug, Clone, Copy, PartialEq, Eq, Structural)]
pub struct UserAuthState {
    pub role: RbUserRole,
    pub must_change_password: bool,
}

/// What a session may do, from the role's number in storage.
pub fn get_auth_state_by_id(row: Option<(i16, bool)>) -> (r: Option<UserAuthState>)
    ensures
        r == (match row {
            Some((urole, must_change_password)) => Some(
                UserAuthState { role: RbUserRole::from_code(urole), must_change_password },
            ),
            None => None,
        }),
{
    match row {
        Some((urole, must_change_password)) => Some(
            UserAuthState { role: RbUserRole::from(urole), must_change_password },
        ),
        None => None,
    }
}

/// A user in the list that staff see.
#[derive(Debug)]
pub struct AdminUserListItem {
    pub id: i32,
    pub email: String,
    pub nickname: String,
    pub avatar: String,
    pub urole: RbUserRole,
    pub must_change_password: bool,
    pub team_count: i64,
    pub ctime_at: Timestamp,
}

#[derive(Debug)]
pub struct AdminUserListRow {
    pub id: i32,
    pub email: String,
    pub nickname: String,
    pub avatar_provider: i16,
    pub urole: i16,
    pub must_change_password: bool,
    pub team_count: i64,
    pub ctime_at: Timestamp,
}

/// Which users staff want to see.
#[derive(Debug, Clone, Copy)]
pub struct AdminUserListFilter<'a> {
    pub search: &'a str,
    pub role: Option<i16>,
    pub limit: i64,
    pub offset: i64,
}

impl AdminUserListItem {
    /// Whether this is how a row is shown.
    pub open spec fn shows(self, row: AdminUserListRow) -> bool {
        &&& self.avatar@ == avatar_of(row.email@, row.avatar_provider)
        &&& self == AdminUserListItem {
            id: row.id,
            email: row.email,
            nickname: row.nickname,
            avatar: self.avatar,
            urole: RbUserRole::from_code(row.urole),
            must_change_password: row.must_change_password,
            team_count: row.team_count,
            ctime_at: row.ctime_at,
        }
    }

    pub fn from_row(row: AdminUserListRow) -> (r: Self)
        ensures
            r.shows(row),
    {
        let avatar = avatar_url(&row.email, AvatarProvider::from_stored(row.avatar_provider));
        AdminUserListItem {
            id: row.id,
            avatar,
            email: row.email,
            nickname: row.nickname,
            urole: RbUserRole::from(row.urole),
            must_change_password: row.must_change_password,
            team_count: row.team_count,
            ctime_at: row.ctime_at,
        }
    }
}

/// The users that were found, as they are shown, in their order.
pub fn admin_list(rows: Vec<AdminUserListRow>) -> (r: Vec<AdminUserListItem>)
    ensures
        r@.len() == rows@.len(),
        forall|i: int| 0 <= i < rows@.len() ==> (#[trigger] r@[i]).shows(rows@[i]),
{
    let mut out: Vec<AdminUserListItem> = Vec::new();
    for row in it: rows
        invariant
            it.seq() == rows@,
            out@.len() == it.index(),
            forall|i: int| 0 <= i < out@.len() ==> (#[trigger] out@[i]).shows(rows@[i]),
    {
        out.push(AdminUserListItem::from_row(row));
    }
    out
}

/// A team that a user is a member of.
#[derive(Debug)]
pub struct AdminUserTeam {
    pub game_id: i32,
    pub game_title: String,
    pub team_id: i32,
    pub team_name: String,
    pub is_captain: bool,
}

/// A user as staff see one.
#[derive(Debug)]
pub struct AdminUserDetail {
    pub id: i32,
    pub email: String,
    pub nickname: String,
    pub bio: Option<String>,
    pub avatar: String,
    pub avatar_provider: AvatarProvider,
    pub urole: RbUserRole,
    pub must_change_password: bool,
    pub ctime_at: Timestamp,
    pub teams: Vec<AdminUserTeam>,
}

/// A user with the teams of the user, as staff see them.
pub fn admin_get(user: RbUserDisplayRow, teams: Vec<AdminUserTeam>) -> (r: AdminUserDetail)
    ensures
        r.avatar@ == avatar_of(user.email@, user.avatar_provider),
        r == (AdminUserDetail {
            id: user.id,
            email: user.email,
            nickname: user.nickname,
            bio: user.bio,
            avatar: r.avatar,
            avatar_provider: AvatarProvider::stored(user.avatar_provider),
            urole: RbUserRole::from_code(user.urole),
            must_change_password: user.must_change_password,
            ctime_at: user.ctime_at,
            teams,
        }),
{
    let avatar_provider = AvatarProvider::from_stored(user.avatar_provider);
    let avatar = avatar_url(&user.email, avatar_provider);
    AdminUserDetail {
        id: user.id,
        avatar,
        avatar_provider,
        email: user.email,
        nickname: user.nickname,
        bio: user.bio,
        urole: RbUserRole::from(user.urole),
        must_change_password: user.must_change_password,
        ctime_at: user.ctime_at,
        teams,
    }
}

/// What to store of a user whom staff register; the password must be changed.
#[derive(Debug)]
pub struct NewUser {
    pub credentials: Credentials,
    pub nickname: String,
    pub bio: Option<String>,
    pub urole: i16,
    pub must_change_password: bool,
}

/// What to store of a user whom staff register, once the password has been hashed. Where that
/// failed, the failure is handed on.
pub fn new_user_from(
    email: &str,
    nickname: &str,
    bio: &Option<String>,
    role: RbUserRole,
    hashed: Result<String, RbInternalError>,
) -> (r: Result<NewUser, RbInternalError>)
    ensures
        match hashed {
            Ok(hash) => r matches Ok(user) && {
                &&& user.credentials.email@ == email@
                &&& user.credentials.pass == hash
                &&& user.nickname@ == nickname@
                &&& judge::text_in(user.bio) == judge::text_in(*bio)
                &&& user.urole == role.code_of()
                &&& user.must_change_password
            },
            Err(e) => r == Err::<NewUser, RbInternalError>(e),
        },
{
    match credentials_from(email, hashed) {
        Ok(credentials) => Ok(
            NewUser {
                credentials,
                nickname: nickname.to_owned(),
                bio: copy_text(bio),
                urole: role.into(),
                must_change_password: true,
            },
        ),
        Err(e) => Err(e),
    }
}

/// What to store of a user whom staff register with a password. It fails only where the password
/// cannot be hashed.
pub fn admin_create(
    email: &str,
    nickname: &str,
    bio: &Option<String>,
    role: RbUserRole,
    password: &str,
) -> (r: Result<NewUser, RbInternalError>)
    ensures
        r matches Ok(user) ==> {
            &&& user.credentials.lets_in(email@, password@)
            &&& user.nickname@ == nickname@
            &&& judge::text_in(user.bio) == judge::text_in(*bio)
            &&& user.urole == role.code_of()
            &&& user.must_change_password
        },
{
    new_user_from(email, nickname, bio, role, hash_password(password))
}

/// How a change of a user by staff ends.
#[derive(Debug, Clone, Copy, PartialEq, Eq, Structural)]
pub enum AdminUserUpdateResult {
    Updated,
    NotFound,
    EmailConflict,
    SelfRole,
    RoleForbidden,
}

/// What staff want of a user.
#[derive(Debug)]
pub struct AdminUserUpdateData<'a> {
    pub email: &'a str,
    pub nickname: &'a str,
    pub bio: Option<&'a str>,
    pub role: RbUserRole,
}

/// How a change of a user's role and mail address ends, given the user's role in storage, if there
/// is such a user, and whether the address is another user's.
pub open spec fn update_outcome(
    actor_id: i32,
    actor_role: RbUserRole,
    user_id: i32,
    current_role: Option<i16>,
    requested: RbUserRole,
    email_taken: bool,
) -> AdminUserUpdateResult {
    match current_role {
        None => AdminUserUpdateResult::NotFound,
        Some(code) => {
            let current = RbUserRole::from_code(code);
            if actor_id == user_id && current != requested {
                AdminUserUpdateResult::SelfRole
            } else if !actor_role.may_change_role(Some(current), requested) {
                AdminUserUpdateResult::RoleForbidden
            } else if email_taken {
                AdminUserUpdateResult::EmailConflict
            } else {
                AdminUserUpdateResult::Updated
            }
        },
    }
}

pub fn admin_update(
    actor_id: i32,
    actor_role: RbUserRole,
    user_id: i32,
    current_role: Option<i16>,
    data: &AdminUserUpdateData<'_>,
    email_taken: bool,
) -> (r: AdminUserUpdateResult)
    ensures
        r == update_outcome(actor_id, actor_role, user_id, current_role, data.role, email_taken),
{
    let current = match current_role {
        Some(code) => RbUserRole::from(code),
        None => {
            return AdminUserUpdateResult::NotFound;
        },
    };
    if actor_id == user_id && current != data.role {
        return AdminUserUpdateResult::SelfRole;
    }
    if !actor_role.can_change_role(Some(current), data.role) {
        return AdminUserUpdateResult::RoleForbidden;
    }
    if email_taken {
        AdminUserUpdateResult::EmailConflict
    } else {
        AdminUserUpdateResult::Updated
    }
}

/// Nobody changes their own role.
pub proof fn own_roles_stay(
    user_id: i32,
    role: RbUserRole,
    code: i16,
    requested: RbUserRole,
    email_taken: bool,
)
    requires
        update_outcome(user_id, role, user_id, Some(code), requested, email_taken) is Updated,
    ensures
        requested == RbUserRole::from_code(code),
{
}

/// How staff's wish for another password of a user ends.
#[derive(Debug)]
pub enum AdminUserResetPasswordResult {
    /// The hash to store; the user must change the password.
    Reset(String),
    NotFound,
    RoleForbidden,
}

/// Another password for a user, if there is such a user and the user's role ranks below the actor's.
pub fn admin_reset_password(
    actor_role: RbUserRole,
    target_role: Option<i16>,
    password: &str,
) -> (r: Result<AdminUserResetPasswordResult, RbInternalError>)
    ensures
        (r matches Ok(AdminUserResetPasswordResult::NotFound)) <==> target_role is None,
        (r matches Ok(AdminUserResetPasswordResult::RoleForbidden)) <==> (target_role matches Some(
            code,
        ) && !RbUserRole::from_code(code).below(actor_role)),
        r matches Ok(AdminUserResetPasswordResult::Reset(hash)) ==> password_verdict(
            password@,
            hash@,
        ) == Some(true),
{
    let target = match target_role {
        Some(code) => RbUserRole::from(code),
        None => {
            return Ok(AdminUserResetPasswordResult::NotFound);
        },
    };
    if !actor_role.can_manage_credentials(target) {
        return Ok(AdminUserResetPasswordResult::RoleForbidden);
    }
    match hash_password(password) {
        Ok(hash) => Ok(AdminUserResetPasswordResult::Reset(hash)),
        Err(e) => Err(e),
    }
}

/// Credentials let in exactly whoever gives the address and a password that the stored one accepts.
pub proof fn credentials_ask_for_address_and_password(
    stored: Credentials,
    email: Seq<char>,
    password: Seq<char>,
)
    ensures
        stored.lets_in(email, password) <==> email == stored.email@ && password_verdict(
            password,
            stored.pass@,
        ) == Some(true),
        email != stored.email@ ==> !stored.lets_in(email, password),
        password_verdict(password, stored.pass@) is None ==> !stored.lets_in(email, password),
{
}

/// A token has 36 characters, four of them hyphens and the others lower-case hexadecimal digits.
pub proof fn tokens_have_their_form(s: Seq<char>, i: int)
    requires
        is_token(s),
        0 <= i < 36,
    ensures
        s.len() == 36,
        i == 8 || i == 13 || i == 18 || i == 23 ==> s[i] == '-',
        i != 8 && i != 13 && i != 18 && i != 23 ==> '0' <= s[i] <= '9' || 'a' <= s[i] <= 'f',
{
    let c = s[i];
}

/// A pending registration is kept under its token and under its address, each behind a word of its own.
pub proof fn pending_keys_hold_what_they_are_for(token: Seq<char>, email: Seq<char>)
    ensures
        pending_user(token).len() == token.len() + 13,
        pending_user(token).skip(13) == token,
        pending_email(email).len() == email.len() + 14,
        pending_email(email).skip(14) == email,
        pending_user(token).take(13) == "pending_user:"@,
        pending_email(email).take(14) == "pending_email:"@,
{
    reveal_strlit("pending_user:");
    reveal_strlit("pending_email:");
    assert("pending_user:"@.len() == 13);
    assert("pending_email:"@.len() == 14);
    assert(pending_user(token).skip(13) =~= token);
    assert(pending_email(email).skip(14) =~= email);
    assert(pending_user(token).take(13) =~= "pending_user:"@);
    assert(pending_email(email).take(14) =~= "pending_email:"@);
}

/// A password is changed only by who knows the current one or must change it, and only to another; it
/// is compared with the current one only once that is known.
pub proof fn passwords_are_changed_by_who_knows_them(
    must_change: bool,
    current: Option<bool>,
    same: Option<bool>,
)
    ensures
        ({
            let step = step_of_change(must_change, current, same);
            let known = must_change || current == Some(true);
            &&& step == PasswordStep::WrongCurrent <==> !known
            &&& step == PasswordStep::CompareNew <==> known && same is None
            &&& step == PasswordStep::SamePassword <==> known && same == Some(true)
            &&& step == PasswordStep::Store <==> known && same == Some(false)
        }),
        current_accepted(true, current),
        current_accepted(false, current) <==> current == Some(true),
{
}

/// The current password is unreadable only where it is needed, was given, and cannot be compared; one
/// that was not given has no verdict.
pub proof fn current_passwords_are_compared(must_change: bool, given: Seq<char>, hash: Seq<char>)
    ensures
        !current_unreadable(true, Some(given), hash),
        !current_unreadable(must_change, None, hash),
        current_unreadable(false, Some(given), hash) <==> password_verdict(given, hash) is None,
        current_verdict(None, hash) is None,
        current_verdict(Some(given), hash) == password_verdict(given, hash),
{
}

/// A user is shown in a list as stored, with the picture of their address from the provider that they
/// chose.
pub proof fn users_are_listed_as_stored(shown: AdminUserListItem, row: AdminUserListRow)
    requires
        shown.shows(row),
    ensures
        shown.id == row.id,
        shown.email@ == row.email@,
        shown.nickname@ == row.nickname@,
        shown.must_change_password == row.must_change_password,
        shown.team_count == row.team_count,
        shown.ctime_at == row.ctime_at,
        shown.urole == RbUserRole::from_code(row.urole),
        shown.avatar@ == user::avatar_address(
            user::mail_digest(row.email@),
            AvatarProvider::stored(row.avatar_provider),
        ),
{
}

/// What a change of a user comes to: users that are not there are not found, nobody changes a role of
/// their own, roles are changed only by those who may, and addresses are taken once; the first of these
/// that fails is told.
pub proof fn users_are_changed_by_who_may(
    actor_id: i32,
    actor_role: RbUserRole,
    user_id: i32,
    code: i16,
    requested: RbUserRole,
    email_taken: bool,
)
    ensures
        ({
            let current = RbUserRole::from_code(code);
            let end = update_outcome(
                actor_id,
                actor_role,
                user_id,
                Some(code),
                requested,
                email_taken,
            );
            let own = actor_id == user_id && current != requested;
            let allowed = actor_role.may_change_role(Some(current), requested);
            &&& end == AdminUserUpdateResult::SelfRole <==> own
            &&& end == AdminUserUpdateResult::RoleForbidden <==> !own && !allowed
            &&& end == AdminUserUpdateResult::EmailConflict <==> !own && allowed && email_taken
            &&& end == AdminUserUpdateResult::Updated <==> !own && allowed && !email_taken
        }),
        update_outcome(actor_id, actor_role, user_id, None, requested, email_taken)
            == AdminUserUpdateResult::NotFound,
{
}

} // verus!
