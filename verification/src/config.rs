//! The process configuration the application is started with.

use vstd::prelude::*;

verus! {

/// Where the relational store and the cache live, and how the session cookie
/// is issued. Loading these from the environment is the application shell's
/// job; the library only carries the values.
#[derive(Debug)]
pub struct AppConfig {
    pub db_url: String,
    pub cache_url: String,
    pub cookie_domain: String,
    pub cookie_secure: bool,
}

} // verus!
