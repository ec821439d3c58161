//! The admin port: its request guards and the decisions of its endpoints.
pub mod runtime;
pub mod config_api;
pub mod guard;
