//! The records that the calendar service returns.

use vstd::prelude::*;

verus! {

/// One calendar of the account.
#[derive(Debug, Clone, PartialEq)]
pub struct Calendar {
    pub id: String,
    pub summary: String,
    pub primary: bool,
    pub time_zone: String,
    pub access_role: String,
    /// The colour of the calendar as `#RRGGBB`, where the service gives one.
    pub background_color: Option<String>,
    pub description: Option<String>,
}

/// One event of a calendar.
#[derive(Debug, Clone, PartialEq)]
pub struct Event {
    pub id: String,
    pub summary: Option<String>,
    pub description: Option<String>,
    pub location: Option<String>,
    pub start: EventDateTime,
    pub end: EventDateTime,
    pub status: Option<String>,
    pub html_link: Option<String>,
    pub attendees: Option<Vec<Attendee>>,
    /// The id of the calendar that the event was fetched from.
    pub calendar_id: Option<String>,
}

/// The start or the end of an event as the service sends it: an instant in
/// `date_time` (RFC 3339), or, for an all-day event, a day in `date`
/// (`YYYY-MM-DD`). `EventTime::read` tells which of the two it is.
#[derive(Debug, Clone, PartialEq)]
pub struct EventDateTime {
    pub date_time: Option<String>,
    pub date: Option<String>,
    pub time_zone: Option<String>,
}

/// A person invited to an event.
#[derive(Debug, Clone, PartialEq)]
pub struct Attendee {
    pub email: String,
    pub display_name: Option<String>,
    pub response_status: Option<String>,
    pub optional: Option<bool>,
}

/// One page of the list of calendars.
#[derive(Debug, Clone, PartialEq)]
pub struct CalendarListResponse {
    pub items: Vec<Calendar>,
    /// The cursor of the next page; `None` on the last page.
    pub next_page_token: Option<String>,
}

/// One page of the events of a calendar.
#[derive(Debug, Clone, PartialEq)]
pub struct EventsListResponse {
    pub items: Vec<Event>,
    /// The cursor of the next page; `None` on the last page.
    pub next_page_token: Option<String>,
}

} // verus!
