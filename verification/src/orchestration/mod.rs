pub mod dag;
pub mod step;
pub mod executor;
