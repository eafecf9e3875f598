//! When an event starts or ends: at an instant, or on a day.

use super::models::EventDateTime;
use crate::date::{
    parse_rfc3339, parse_ymd, rfc3339_local_fields, ymd, ymd_text_day, Date, LocalDateTime,
};
use vstd::prelude::*;

verus! {

/// The start or the end of an event, as it was read: an instant, or the day
/// of an all-day event.
#[derive(Debug, Clone, Copy, PartialEq, Eq)]
pub enum EventTime {
    /// An instant, by its day and its time of day in its own offset.
    Instant(LocalDateTime),
    /// A whole day.
    AllDay(Date),
}

/// The instant that `text` names as an RFC 3339 date and time, if there is a
/// text and it names one.
pub open spec fn instant_named(text: Option<String>) -> Option<LocalDateTime> {
    match text {
        Some(t) => match rfc3339_local_fields(t@) {
            Some(f) => Some(
                LocalDateTime {
                    date: Date::from_model(ymd(f.0, f.1, f.2)),
                    hour: f.3 as u32,
                    minute: f.4 as u32,
                },
            ),
            None => None,
        },
        None => None,
    }
}

/// The day that `text` names as year, month and day, if there is a text and
/// it names one.
pub open spec fn day_named(text: Option<String>) -> Option<Date> {
    match text {
        Some(t) => match ymd_text_day(t@) {
            Some(day) => Some(Date::from_model(day)),
            None => None,
        },
        None => None,
    }
}

impl EventTime {
    /// What a start or an end is, given the instant and the day that could
    /// be read of it: the instant where there is one, else the day.
    pub open spec fn of_parts(instant: Option<LocalDateTime>, all_day: Option<Date>) -> Option<
        EventTime,
    > {
        match instant {
            Some(t) => Some(EventTime::Instant(t)),
            None => match all_day {
                Some(d) => Some(EventTime::AllDay(d)),
                None => None,
            },
        }
    }

    /// What the record `at` of the service says: the instant in `date_time`
    /// where that can be read, else the day in `date` where that can be
    /// read.
    pub open spec fn of(at: EventDateTime) -> Option<EventTime> {
        EventTime::of_parts(instant_named(at.date_time), day_named(at.date))
    }

    /// The day on which the instant lies, or the day itself.
    pub open spec fn on(self) -> Date {
        match self {
            EventTime::Instant(t) => t.date,
            EventTime::AllDay(d) => d,
        }
    }

    /// The hour and the minute of an instant; `None` for a whole day.
    pub open spec fn clock(self) -> Option<(int, int)> {
        match self {
            EventTime::Instant(t) => Some((t.hour as int, t.minute as int)),
            EventTime::AllDay(_) => None,
        }
    }

    /// What a start or an end is, given the instant and the day that could
    /// be read of it.
    pub fn from_parts(instant: Option<LocalDateTime>, all_day: Option<Date>) -> (r: Option<
        EventTime,
    >)
        ensures
            r == EventTime::of_parts(instant, all_day),
    {
        match instant {
            Some(t) => Some(EventTime::Instant(t)),
            None => match all_day {
                Some(d) => Some(EventTime::AllDay(d)),
                None => None,
            },
        }
    }

    /// Reads the record `at` of the service. `None` where it holds neither
    /// an instant nor a day that can be read.
    pub fn read(at: &EventDateTime) -> (r: Option<EventTime>)
        ensures
            r == EventTime::of(*at),
    {
        let instant = match &at.date_time {
            Some(text) => parse_rfc3339(text.as_str()),
            None => None,
        };
        proof {
            if let Some(t) = instant {
                Date::lemma_from_view(t.date);
            }
        }
        match instant {
            Some(t) => Some(EventTime::Instant(t)),
            None => {
                let all_day = match &at.date {
                    Some(text) => parse_ymd(text.as_str()),
                    None => None,
                };
                proof {
                    if let Some(d) = all_day {
                        Date::lemma_from_view(d);
                    }
                }
                EventTime::from_parts(None, all_day)
            },
        }
    }

    /// The day on which the instant lies, or the day itself.
    pub fn day(&self) -> (d: Date)
        ensures
            d == self.on(),
    {
        match self {
            EventTime::Instant(t) => t.date,
            EventTime::AllDay(d) => *d,
        }
    }
}

} // verus!
