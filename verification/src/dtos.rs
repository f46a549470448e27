//! Plain response shapes shared by the routes.

use vstd::prelude::*;
use vstd::string::StringExecFns;

verus! {

/// A plain message body.
#[derive(Debug)]
pub struct MessageResponse {
    pub message: String,
}

/// An error body carrying a single error string.
#[derive(Debug)]
pub struct ErrorResponse {
    pub error: String,
}

impl MessageResponse {
    pub fn new(msg: &str) -> (r: Self)
        ensures
            r.message@ == msg@,
    {
        let mut m = String::new();
        m.append(msg);
        MessageResponse { message: m }
    }
}

impl ErrorResponse {
    pub fn new(err: &str) -> (r: Self)
        ensures
            r.error@ == err@,
    {
        let mut e = String::new();
        e.append(err);
        ErrorResponse { error: e }
    }
}

} // verus!
