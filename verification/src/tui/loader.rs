//! The messages by which a pass of loading, run beside the loop that draws
//! the screen, reports to that loop.

use super::fetcher::{FetchError, FetchedData};
use super::state::EventIndex;
use crate::calendar::models::Calendar;
use vstd::prelude::*;
use vstd::string::StringExecFns;

verus! {

/// A report of the loader.
#[derive(Debug)]
pub enum DataMessage {
    /// A pass has begun.
    Loading,
    /// The pass is over and gathered this. `warning` says what is to be
    /// known of it: that the events of no calendar could be fetched.
    Success { calendars: Vec<Calendar>, events: EventIndex, warning: Option<String> },
    /// The pass is over and failed.
    Error { message: String },
}

impl DataMessage {
    /// Whether the message is the last one of its pass.
    pub open spec fn terminal(self) -> bool {
        !(self is Loading)
    }

    /// Whether the message is the last one of its pass: after it the loader
    /// has nothing more to say and is to be dropped.
    pub fn is_terminal(&self) -> (b: bool)
        ensures
            b == self.terminal(),
    {
        match self {
            DataMessage::Loading => false,
            _ => true,
        }
    }

    /// The message that reports how a pass ended: what it gathered, or the
    /// text of its error. A pass that could fetch the events of none of its
    /// calendars reports what it has, with a warning.
    pub fn from_outcome(outcome: Result<FetchedData, FetchError>) -> (r: DataMessage)
        ensures
            match outcome {
                Ok(data) => {
                    &&& r matches DataMessage::Success { calendars, events, warning }
                    &&& r->Success_calendars == data.calendars
                    &&& r->Success_events == data.events
                    &&& match r->Success_warning {
                        Some(text) => data.every_calendar_failed() && text@
                            == "Failed to fetch the events of every calendar"@,
                        None => !data.every_calendar_failed(),
                    }
                },
                Err(error) => r matches DataMessage::Error { message } && message@ == match error {
                    FetchError::Calendars(_) => "Failed to fetch calendars"@,
                    FetchError::Unfinished => "The fetch is not finished"@,
                },
            },
    {
        match outcome {
            Ok(data) => {
                let warning = if data.all_failed() {
                    Some(String::from_str("Failed to fetch the events of every calendar"))
                } else {
                    None
                };
                DataMessage::Success { calendars: data.calendars, events: data.events, warning }
            },
            Err(error) => DataMessage::Error { message: String::from_str(error.message()) },
        }
    }
}

} // verus!
