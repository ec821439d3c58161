pub mod text;
pub mod split;
pub mod time;
pub mod json;
pub mod urls;
pub mod error;
pub mod digest;
pub mod pairs;
pub mod template;
pub mod crypto;
