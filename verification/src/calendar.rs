//! The records of the calendar service and the protocol of its client.

pub mod client;
pub mod event_time;
pub mod models;

pub use event_time::EventTime;
pub use models::{Attendee, Calendar, Event, EventDateTime};
