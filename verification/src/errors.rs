//! The application-level error: every route failure is an auth error or an
//! unknown one, and renders to a status, a code and a message.

use vstd::prelude::*;
use vstd::string::StringExecFns;
use crate::auth::{AuthError, spec_extract};

verus! {

/// The application-level error of the routes.
#[derive(Debug)]
pub enum AppError {
    Auth(AuthError),
    Unknown(String),
}

/// The HTTP rendering of an application error.
pub open spec fn spec_app_extract(e: AppError) -> (u16, Seq<char>, Seq<char>) {
    match e {
        AppError::Auth(a) => spec_extract(a),
        AppError::Unknown(s) => (500u16, "INTERNAL_SERVER_ERROR"@, s@),
    }
}

impl AppError {
    /// Renders the error for the HTTP layer: status code, stable error code
    /// and message.
    pub fn extract(self) -> (r: (u16, String, String))
        ensures
            r.0 == spec_app_extract(self).0,
            r.1@ == spec_app_extract(self).1,
            r.2@ == spec_app_extract(self).2,
    {
        match self {
            AppError::Auth(a) => a.extract(),
            AppError::Unknown(s) => (500, String::from_str("INTERNAL_SERVER_ERROR"), s),
        }
    }
}

} // verus!
