//! The API's response bodies: a plain message, and the error body every
//! failing route answers with.

use vstd::prelude::*;
use vstd::string::StringExecFns;

verus! {

/// A plain message body.
#[derive(Debug)]
pub struct MessageResponse {
    pub message: String,
}

/// The error body of a failing route: the HTTP status it travels with, a
/// stable error code, and a human-readable message.
#[derive(Debug)]
pub struct ErrorResponse {
    pub status: u16,
    pub code: String,
    pub message: String,
}

impl ErrorResponse {
    pub fn new(status: u16, code: &str, message: &str) -> (r: Self)
        ensures
            r.status == status,
            r.code@ == code@,
            r.message@ == message@,
    {
        let mut c = String::new();
        c.append(code);
        let mut m = String::new();
        m.append(message);
        ErrorResponse { status, code: c, message: m }
    }
}

} // verus!
