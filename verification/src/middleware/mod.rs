pub mod circuit_breaker;
pub mod token_refresh;
pub mod ip_whitelist;
pub mod ip_rate_limit;
pub mod rate_limit_skip;
