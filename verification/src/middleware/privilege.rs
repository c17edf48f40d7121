//! Requests that need a role.
use vstd::prelude::*;

use crate::model::user::RbUserRole;

verus! {

/// What is done with a request.
#[derive(Debug, Clone, Copy, PartialEq, Eq, Structural)]
pub enum Passage {
    /// It is served, and the role goes along.
    Serve(RbUserRole),
    Forbidden,
    Unauthorized,
    /// It is unauthorized, and the session that came with it is ended.
    EndSession,
}

#[derive(Debug, Clone, Copy, PartialEq, Eq, Structural)]
pub struct PrivilegeMiddleware {
    pub required: RbUserRole,
}

impl PrivilegeMiddleware {
    pub fn new(required: RbUserRole) -> (r: Self)
        ensures
            r.required == required,
    {
        PrivilegeMiddleware { required }
    }

    /// What is done with a request whose session holds or not, and whose user, if there is one, has
    /// a role.
    pub open spec fn passage(self, session_holds: bool, role: Option<RbUserRole>) -> Passage {
        if !session_holds {
            Passage::EndSession
        } else {
            match role {
                Some(role) => if role == self.required && role.valid() || self.required.below(
                    role,
                ) {
                    Passage::Serve(role)
                } else {
                    Passage::Forbidden
                },
                None => Passage::Unauthorized,
            }
        }
    }

    pub fn decide(&self, session_holds: bool, role: Option<RbUserRole>) -> (r: Passage)
        ensures
            r == self.passage(session_holds, role),
    {
        if !session_holds {
            return Passage::EndSession;
        }
        match role {
            Some(role) => if role >= self.required {
                Passage::Serve(role)
            } else {
                Passage::Forbidden
            },
            None => Passage::Unauthorized,
        }
    }
}

/// Who is served where a role is required is served where a lower one is.
pub proof fn higher_roles_may_do_more(
    high: PrivilegeMiddleware,
    low: PrivilegeMiddleware,
    session_holds: bool,
    role: Option<RbUserRole>,
)
    requires
        low.required.below(high.required),
        high.passage(session_holds, role) is Serve,
    ensures
        low.passage(session_holds, role) == high.passage(session_holds, role),
{
}

/// A code that names no role is never served.
pub proof fn invalid_roles_are_never_served(
    m: PrivilegeMiddleware,
    session_holds: bool,
    role: RbUserRole,
)
    requires
        !role.valid(),
    ensures
        !(m.passage(session_holds, Some(role)) is Serve),
{
}

/// A request is served exactly where its session holds and its role is at least the one that is
/// asked for; otherwise it is told apart whether the session ended, nobody is signed in, or the role is
/// too low.
pub proof fn roles_open_what_asks_for_less(
    m: PrivilegeMiddleware,
    session_holds: bool,
    role: RbUserRole,
)
    ensures
        !session_holds ==> m.passage(session_holds, Some(role)) == Passage::EndSession && m.passage(
            session_holds,
            None,
        ) == Passage::EndSession,
        session_holds ==> m.passage(session_holds, None) == Passage::Unauthorized,
        session_holds ==> (m.passage(session_holds, Some(role)) == Passage::Serve(role)
            <==> role.valid() && m.required.valid() && role.code_of() >= m.required.code_of()),
        session_holds && !(role.valid() && m.required.valid() && role.code_of()
            >= m.required.code_of()) ==> m.passage(session_holds, Some(role)) == Passage::Forbidden,
{
}

} // verus!
