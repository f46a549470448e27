//! Authentication orchestration pieces: the request and response shapes of
//! the auth routes, the route-level error with its HTTP rendering, and the
//! pure steps of the handlers — building a session for a user and reading a
//! profile out of a session.

use vstd::prelude::*;
use vstd::string::StringExecFns;
use crate::ids::spec_uuid_str;
use crate::sessions::{Session, SessionServiceError};
use crate::users::{User, UserServiceError};

verus! {

/// A login request body.
pub struct LoginRequest {
    pub email: String,
    pub password: String,
}

/// A registration request body.
pub struct RegisterRequest {
    pub name: String,
    pub email: String,
    pub password: String,
}

/// A login request body as the route receives it.
pub struct PostLoginRequest {
    pub email: String,
    pub password: String,
}

/// A registration request body as the route receives it.
pub struct PostRegisterRequest {
    pub name: String,
    pub email: String,
    pub password: String,
}

/// The profile a session lookup answers with.
pub struct GetMeResponse {
    pub id: String,
    pub email: String,
}

/// What can go wrong on an auth route, each variant carrying its message.
#[derive(Debug)]
pub enum AuthError {
    ValidationFailed(String),
    WrongPassword(String),
    UserNotFound(String),
    UserDoesNotUsePassword(String),
    UserAlreadyExists(String),
    Unauthenticated(String),
    Unknown(String),
}

/// The HTTP rendering of an auth error: status code, stable error code, and
/// the variant's message.
pub open spec fn spec_extract(e: AuthError) -> (u16, Seq<char>, Seq<char>) {
    match e {
        AuthError::ValidationFailed(s) => (400u16, "VALIDATION_FAILED"@, s@),
        AuthError::WrongPassword(s) => (403u16, "WRONG_PASSWORD"@, s@),
        AuthError::UserNotFound(s) => (404u16, "USER_NOT_FOUND"@, s@),
        AuthError::UserDoesNotUsePassword(s) => (422u16, "USER_NO_PASSWORD"@, s@),
        AuthError::UserAlreadyExists(s) => (409u16, "USER_ALREADY_EXISTS"@, s@),
        AuthError::Unauthenticated(s) => (401u16, "UNAUTHENTICATED"@, s@),
        AuthError::Unknown(s) => (500u16, "INTERNAL_SERVER_ERROR"@, s@),
    }
}

impl AuthError {
    /// Renders the error for the HTTP layer: status code, stable error code
    /// and message.
    pub fn extract(self) -> (r: (u16, String, String))
        ensures
            r.0 == spec_extract(self).0,
            r.1@ == spec_extract(self).1,
            r.2@ == spec_extract(self).2,
    {
        match self {
            AuthError::ValidationFailed(s) => (400, String::from_str("VALIDATION_FAILED"), s),
            AuthError::WrongPassword(s) => (403, String::from_str("WRONG_PASSWORD"), s),
            AuthError::UserNotFound(s) => (404, String::from_str("USER_NOT_FOUND"), s),
            AuthError::UserDoesNotUsePassword(s) => (
                422,
                String::from_str("USER_NO_PASSWORD"),
                s,
            ),
            AuthError::UserAlreadyExists(s) => (409, String::from_str("USER_ALREADY_EXISTS"), s),
            AuthError::Unauthenticated(s) => (401, String::from_str("UNAUTHENTICATED"), s),
            AuthError::Unknown(s) => (500, String::from_str("INTERNAL_SERVER_ERROR"), s),
        }
    }

    /// The route-level reading of a user service error, with the messages
    /// the routes answer with.
    pub fn from_user_error(e: UserServiceError) -> (r: AuthError)
        ensures
            match e {
                UserServiceError::UserNotFound => (r matches AuthError::UserNotFound(s) && s@
                    == "User not found"@),
                UserServiceError::WrongPassword => (r matches AuthError::WrongPassword(s) && s@
                    == "Wrong password"@),
                UserServiceError::UserDoesNotUsePassword => (r matches
                    AuthError::UserDoesNotUsePassword(s) && s@ == "User does not use password"@),
                UserServiceError::UserAlreadyExists => (r matches AuthError::UserAlreadyExists(s)
                    && s@ == "User already exists"@),
                UserServiceError::UnknownError => (r matches AuthError::Unknown(s) && s@
                    == "Unknown error"@),
            },
    {
        match e {
            UserServiceError::UserNotFound => AuthError::UserNotFound(
                String::from_str("User not found"),
            ),
            UserServiceError::WrongPassword => AuthError::WrongPassword(
                String::from_str("Wrong password"),
            ),
            UserServiceError::UserDoesNotUsePassword => AuthError::UserDoesNotUsePassword(
                String::from_str("User does not use password"),
            ),
            UserServiceError::UserAlreadyExists => AuthError::UserAlreadyExists(
                String::from_str("User already exists"),
            ),
            UserServiceError::UnknownError => AuthError::Unknown(
                String::from_str("Unknown error"),
            ),
        }
    }

    /// The route-level reading of a session service error: every session
    /// trouble surfaces as an internal error to the routes that write
    /// sessions.
    pub fn from_session_error(e: SessionServiceError) -> (r: AuthError)
        ensures
            (r matches AuthError::Unknown(s) && s@ == (match e {
                SessionServiceError::NotFound => "No session found"@,
                SessionServiceError::Corrupt => "Session data corrupt"@,
                SessionServiceError::Unavailable => "Session store unavailable"@,
            })),
    {
        match e {
            SessionServiceError::NotFound => AuthError::Unknown(
                String::from_str("No session found"),
            ),
            SessionServiceError::Corrupt => AuthError::Unknown(
                String::from_str("Session data corrupt"),
            ),
            SessionServiceError::Unavailable => AuthError::Unknown(
                String::from_str("Session store unavailable"),
            ),
        }
    }
}

/// The session a successful login or registration stores: the user's id and
/// email, stamped with the creation instant.
pub fn session_for_user(user: &User, now: i64) -> (r: Session)
    ensures
        r@.user_id == Some(user@.id),
        r@.user_email == Some(user@.email),
        r@.created_at == now as int,
{
    Session {
        user_id: Some(user.id),
        user_email: Some(user.email.clone()),
        created_at: now,
    }
}

/// The profile read out of a session: its user id in hyphenated form and its
/// email. A session that carries no user id or no email — one not created by
/// login or registration — is an internal error, not an absence.
pub fn session_me_response(sess: &Session) -> (r: Result<GetMeResponse, AuthError>)
    ensures
        match r {
            Ok(me) => {
                &&& sess@.user_id matches Some(u) && me.id@ == spec_uuid_str(u)
                &&& sess@.user_email matches Some(e) && me.email@ == e
            },
            Err(e) => {
                &&& (sess@.user_id is None || sess@.user_email is None)
                &&& (e matches AuthError::Unknown(_))
            },
        },
{
    let id = match &sess.user_id {
        Some(u) => u.to_hyphenated(),
        None => {
            return Err(AuthError::Unknown(String::from_str("No user name")));
        },
    };
    let email = match &sess.user_email {
        Some(e) => e.clone(),
        None => {
            return Err(AuthError::Unknown(String::from_str("No user email")));
        },
    };
    Ok(GetMeResponse { id, email })
}

} // verus!
