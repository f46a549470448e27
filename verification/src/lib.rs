pub mod auth;
pub mod cache;
pub mod cache_keys;
pub mod codec;
pub mod config;
pub mod dec;
pub mod dtos;
pub mod errors;
pub mod fold;
pub mod ids;
pub mod passwords;
pub mod random;
pub mod responses;
pub mod sessions;
pub(crate) mod strutil;
pub mod tenants;
pub mod users;
