//! Errors and how they are answered.
use rand::Rng;
use vstd::prelude::*;
use vstd::std_specs::convert::FromSpecImpl;
use vstd::string::*;

use crate::text;

verus! {

pub const BAD_REQUEST: u16 = 400;

pub const UNAUTHORIZED: u16 = 401;

pub const NOT_FOUND: u16 = 404;

pub const CONFLICT: u16 = 409;

pub const UNPROCESSABLE_ENTITY: u16 = 422;

pub const INTERNAL_SERVER_ERROR: u16 = 500;

/// An error as a client sees it: a code, a message, and the status of the reply.
#[derive(Debug)]
pub struct RbError {
    pub code: i32,
    pub message: Option<String>,
    pub status_code: u16,
}

/// A fault inside the server.
#[derive(Debug)]
pub enum RbInternalError {
    Other(String),
}

impl RbInternalError {
    /// What the fault says.
    pub open spec fn text(self) -> Seq<char> {
        match self {
            RbInternalError::Other(s) => s@,
        }
    }
}

impl From<String> for RbInternalError {
    fn from(value: String) -> (r: Self) {
        RbInternalError::Other(value)
    }
}

impl FromSpecImpl<String> for RbInternalError {
    open spec fn obeys_from_spec() -> bool {
        true
    }

    open spec fn from_spec(value: String) -> Self {
        RbInternalError::Other(value)
    }
}

/// A fault with a given text.
pub fn fault(text: &str) -> (r: RbInternalError)
    ensures
        r.text() == text@,
{
    RbInternalError::Other(text.to_owned())
}

/// A random code: 8 ASCII letters and digits.
pub open spec fn is_incident_code(code: Seq<char>) -> bool {
    code.len() == 8 && forall|i: int|
        0 <= i < code.len() ==> text::is_alpha(#[trigger] code[i]) || text::is_digit(code[i])
}

/// `rand::Rng::sample` of `rand::rng` with `rand::distr::Alphanumeric`: an ASCII letter or digit;
/// which one is a matter of chance.
#[verifier::external_body]
fn random_alphanumeric() -> (r: char)
    ensures
        text::is_alpha(r) || text::is_digit(r),
{
    char::from(rand::rng().sample(rand::distr::Alphanumeric))
}

fn incident_code() -> (r: String)
    ensures
        is_incident_code(r@),
{
    let mut code = String::new();
    let mut i: usize = 0;
    while i < 8
        invariant
            i <= 8,
            code@.len() == i,
            forall|k: int|
                0 <= k < i ==> text::is_alpha(#[trigger] code@[k]) || text::is_digit(code@[k]),
        decreases 8 - i,
    {
        code.push(random_alphanumeric());
        i += 1;
    }
    code
}

impl RbError {
    /// The same error with a message.
    pub fn msg(self, msg: String) -> (r: Self)
        ensures
            r == (RbError { message: Some(msg), ..self }),
    {
        RbError { code: self.code, message: Some(msg), status_code: self.status_code }
    }

    /// The same error with another code.
    pub fn code(self, code: i32) -> (r: Self)
        ensures
            r == (RbError { code, ..self }),
    {
        RbError { code, message: self.message, status_code: self.status_code }
    }

    pub fn bad_req(code: i32) -> (r: Self)
        ensures
            r == (RbError { code, message: None, status_code: BAD_REQUEST }),
    {
        RbError { code, message: None, status_code: BAD_REQUEST }
    }

    pub fn conflict(code: i32) -> (r: Self)
        ensures
            r == (RbError { code, message: None, status_code: CONFLICT }),
    {
        RbError { code, message: None, status_code: CONFLICT }
    }

    pub fn unprocessable(code: i32) -> (r: Self)
        ensures
            r == (RbError { code, message: None, status_code: UNPROCESSABLE_ENTITY }),
    {
        RbError { code, message: None, status_code: UNPROCESSABLE_ENTITY }
    }

    /// What a client is told of a fault: nothing but the code under which it was logged.
    pub open spec fn internal_message(incident: Seq<char>) -> Seq<char> {
        "Internal Server Error ("@ + incident + ")"@
    }

    /// The reply to a fault that was logged under a code.
    pub fn internal_with(incident: &str) -> (r: Self)
        ensures
            r.code == -100,
            r.status_code == INTERNAL_SERVER_ERROR,
            r.message matches Some(m) && m@ == Self::internal_message(incident@),
    {
        let mut message = "Internal Server Error (".to_owned();
        message.append(incident);
        message.append(")");
        RbError { code: -100, message: Some(message), status_code: INTERNAL_SERVER_ERROR }
    }

    /// The reply to a fault, and the random code under which to log it.
    pub fn internal() -> (r: (Self, String))
        ensures
            is_incident_code(r.1@),
            r.0.code == -100,
            r.0.status_code == INTERNAL_SERVER_ERROR,
            r.0.message matches Some(m) && m@ == Self::internal_message(r.1@),
    {
        let incident = incident_code();
        (Self::internal_with(&incident), incident)
    }

    pub fn unauth() -> (r: Self)
        ensures
            r.code == -101,
            r.status_code == UNAUTHORIZED,
            r.message matches Some(m) && m@ == "Unauthorized"@,
    {
        RbError {
            code: -101,
            message: Some("Unauthorized".to_owned()),
            status_code: UNAUTHORIZED,
        }
    }

    pub fn forbid() -> (r: Self)
        ensures
            r.code == -103,
            r.status_code == UNAUTHORIZED,
            r.message matches Some(m) && m@ == "Forbidden"@,
    {
        RbError { code: -103, message: Some("Forbidden".to_owned()), status_code: UNAUTHORIZED }
    }

    pub fn not_found() -> (r: Self)
        ensures
            r.code == -104,
            r.status_code == NOT_FOUND,
            r.message matches Some(m) && m@ == "Not Found"@,
    {
        RbError { code: -104, message: Some("Not Found".to_owned()), status_code: NOT_FOUND }
    }
}

/// A code of an incident has eight letters and digits, and the message of the error names it.
pub proof fn incidents_are_named(code: Seq<char>, i: int)
    ensures
        is_incident_code(code) ==> code.len() == 8,
        is_incident_code(code) && 0 <= i < 8 ==> text::is_alpha(code[i]) || text::is_digit(code[i]),
        RbError::internal_message(code).len() == code.len() + 24,
        RbError::internal_message(code).subrange(23, 23 + code.len() as int) == code,
{
    reveal_strlit("Internal Server Error (");
    reveal_strlit(")");
    assert("Internal Server Error ("@.len() == 23);
    assert(RbError::internal_message(code).subrange(23, 23 + code.len() as int) =~= code);
    if is_incident_code(code) && 0 <= i < 8 {
        let c = code[i];
    }
}

} // verus!
