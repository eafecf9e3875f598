//! The credentials of the calendar service.

pub mod oauth;
pub mod tokens;

pub use tokens::Tokens;
