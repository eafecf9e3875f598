//! What each pane shows, as plain values for the code that draws.

pub mod calendar;
pub mod event_details;
pub mod events;

pub use calendar::CalendarWidget;
pub use event_details::EventDetailsWidget;
pub use events::EventListWidget;
