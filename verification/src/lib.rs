//! The logic of a terminal calendar viewer: calendar dates, the cached events
//! of a rolling window of months, the navigation state machine and its key
//! router, and the request protocol of the calendar service client.

pub mod auth;
pub mod calendar;
pub mod cli;
pub mod date;
pub mod text;
pub mod tui;
