//! Requests during maintenance.
use vstd::prelude::*;
use vstd::string::*;

use crate::db::user::UserAuthState;
use crate::text::same;

verus! {

/// Whether a path is served during maintenance too.
pub open spec fn exempt(path: Seq<char>) -> bool {
    path == "/api/system/status"@ || path == "/api/auth/login"@ || path == "/api/auth/logout"@
        || path == "/api/user/info"@
}

pub fn is_exempt(path: &str) -> (r: bool)
    ensures
        r == exempt(path@),
{
    same(path, "/api/system/status") || same(path, "/api/auth/login") || same(
        path,
        "/api/auth/logout",
    ) || same(path, "/api/user/info")
}

/// Whether a request is served whoever sends it.
pub fn is_open(maintenance_enabled: bool, path: &str) -> (r: bool)
    ensures
        r == (!maintenance_enabled || exempt(path@)),
{
    !maintenance_enabled || is_exempt(path)
}

/// Whether a request is served during maintenance for the user of a session: one that holds, of an
/// administrator.
pub fn is_served_for(session_holds: bool, user: Option<UserAuthState>) -> (r: bool)
    ensures
        r == (session_holds && (user matches Some(auth) && auth.role.administers())),
{
    match user {
        Some(auth) => session_holds && auth.role.is_admin(),
        None => false,
    }
}

/// Some addresses are served in any case: the state of the system, signing in and out, and who is
/// signed in.
pub proof fn some_addresses_stay_open(path: Seq<char>)
    ensures
        exempt("/api/system/status"@),
        exempt("/api/auth/login"@),
        exempt("/api/auth/logout"@),
        exempt("/api/user/info"@),
        exempt(path) ==> path.len() >= 14 && path.len() <= 18,
{
    reveal_strlit("/api/system/status");
    reveal_strlit("/api/auth/login");
    reveal_strlit("/api/auth/logout");
    reveal_strlit("/api/user/info");
}

} // verus!
