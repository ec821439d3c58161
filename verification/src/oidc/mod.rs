pub mod tokens;
pub mod handlers;
pub mod flow;
