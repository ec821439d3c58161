//! Storage-side pieces: the per-entry lifetimes of the in-memory cache and
//! the session cookie settings.
pub mod cache;
pub mod session;
