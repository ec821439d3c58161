pub mod token_exchange;
pub mod mapping;
pub mod route_dispatcher;
pub mod proxy;
pub mod business;
