//! The user of a request.
use vstd::prelude::*;

use crate::db::game::GameUserInfo;
use crate::error::{fault, RbError, RbInternalError};
use crate::model::user::RbUserRole;

verus! {

#[derive(Debug, Clone, Copy)]
pub struct AuthUser {
    pub uid: i32,
    pub role: Option<RbUserRole>,
    pub game: Option<GameUserInfo>,
}

impl AuthUser {
    /// The user of a session, with what was found out on the way; a session without a user is
    /// refused.
    pub fn from_session(
        user_id: Option<i32>,
        role: Option<RbUserRole>,
        game: Option<GameUserInfo>,
    ) -> (r: Result<Self, RbError>)
        ensures
            match r {
                Ok(user) => user_id == Some(user.uid) && user.role == role && user.game == game,
                Err(e) => {
                    &&& user_id is None
                    &&& e.code == -101
                    &&& e.status_code == 401
                    &&& e.message matches Some(m) && m@ == "Unauthorized"@
                },
            },
    {
        match user_id {
            Some(uid) => Ok(AuthUser { uid, role, game }),
            None => Err(RbError::unauth()),
        }
    }

    /// The role, which must have been looked up before.
    pub fn req_role(&self) -> (r: Result<RbUserRole, RbInternalError>)
        ensures
            match r {
                Ok(role) => self.role == Some(role),
                Err(e) => self.role is None && e.text() == "Missing user role"@,
            },
    {
        match self.role {
            Some(role) => Ok(role),
            None => Err(fault("Missing user role")),
        }
    }

    /// The team, if there is one, in the game, which must have been looked up before.
    pub fn req_team_id(&self) -> (r: Result<Option<i32>, RbInternalError>)
        ensures
            match r {
                Ok(team_id) => self.game matches Some(game) && game.team_id == team_id,
                Err(e) => self.game is None && e.text() == "Missing game info"@,
            },
    {
        match self.game {
            Some(game) => Ok(game.team_id),
            None => Err(fault("Missing game info")),
        }
    }
}

} // verus!
