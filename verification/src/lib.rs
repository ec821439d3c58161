//! Backend-for-frontend gateway core: configuration model and validation,
//! route matching, input/output mapping, DAG layering for orchestration,
//! circuit breaking, token-exchange bookkeeping and the small text codecs
//! those pieces share.
pub mod utils;
pub mod config;
pub mod orchestration;
pub mod middleware;
pub mod server;
pub mod oidc;
pub mod admin;
pub mod scripting;
pub mod provider;
