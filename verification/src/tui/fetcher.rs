//! One pass of loading: the calendars of the account, then the events of
//! each calendar in a window of days, put under the day on which each event
//! begins.

use super::state::{DateRange, EventIndex};
use crate::calendar::client::ApiError;
use crate::calendar::event_time::EventTime;
use crate::calendar::models::{Calendar, Event};
use crate::date::Date;
use vstd::prelude::*;

verus! {

/// The day on which `event` begins: for a start that is an instant, the day
/// of the instant in its own offset; for an all-day event, the day that is
/// written. `None` where the start cannot be read.
pub open spec fn event_start_date(event: Event) -> Option<Date> {
    match EventTime::of(event.start) {
        Some(start) => Some(start.on()),
        None => None,
    }
}

/// The day on which `event` begins, if its start can be read.
pub fn extract_date_from_event(event: &Event) -> (r: Option<Date>)
    ensures
        r == event_start_date(*event),
{
    match EventTime::read(&event.start) {
        Some(start) => Some(start.day()),
        None => None,
    }
}

/// `event` with the calendar that it was fetched from.
pub open spec fn tagged(event: Event, calendar_id: String) -> Event {
    Event { calendar_id: Some(calendar_id), ..event }
}

/// The events that `index` holds for day `d`.
pub open spec fn on_day(index: Map<Date, Seq<Event>>, d: Date) -> Seq<Event> {
    if index.dom().contains(d) {
        index[d]
    } else {
        Seq::empty()
    }
}

/// The index `index` with the events `events` of the calendar `calendar_id`
/// put in, one after the other: each behind the events that its day already
/// has. An event whose start cannot be read is left out.
pub open spec fn grouped(index: Map<Date, Seq<Event>>, calendar_id: String, events: Seq<Event>) -> Map<
    Date,
    Seq<Event>,
>
    decreases events.len(),
{
    if events.len() == 0 {
        index
    } else {
        let before = grouped(index, calendar_id, events.drop_last());
        match event_start_date(events.last()) {
            Some(d) => before.insert(d, on_day(before, d).push(tagged(events.last(), calendar_id))),
            None => before,
        }
    }
}

/// Puts the events of one calendar into the index, each under the day on
/// which it begins and marked with the id of the calendar.
pub fn group_events(index: &mut EventIndex, calendar_id: &String, events: Vec<Event>)
    ensures
        final(index)@ == grouped(old(index)@, *calendar_id, events@),
{
    let ghost all = events@;
    for event in it: events
        invariant
            it.seq() == all,
            index@ == grouped(old(index)@, *calendar_id, all.take(it.index() as int)),
    {
        let ghost n = it.index() as int;
        proof {
            assert(all.take(n + 1).drop_last() =~= all.take(n));
            assert(all.take(n + 1).last() == all[n]);
        }
        let mut event = event;
        match extract_date_from_event(&event) {
            Some(date) => {
                event.calendar_id = Some(calendar_id.clone());
                index.push_event(date, event);
            },
            None => {},
        }
    }
    assert(all.take(all.len() as int) =~= all);
}

/// What a pass of loading is waiting for.
#[derive(Debug, Clone, Copy, PartialEq, Eq, Structural)]
pub enum FetchPhase {
    /// The list of the calendars.
    Calendars,
    /// The events of the calendar at `position`.
    Events,
    /// Nothing: the pass is over.
    Finished,
}

/// What is to be asked of the service next.
#[derive(Debug, Clone, PartialEq)]
pub enum FetchStep {
    /// The list of the calendars.
    ListCalendars,
    /// The events of one calendar from `time_min` to `time_max`.
    ListEvents { calendar_id: String, time_min: Date, time_max: Date },
    /// Nothing more.
    Done,
}

/// What a pass of loading gathered.
#[derive(Debug)]
pub struct FetchedData {
    pub calendars: Vec<Calendar>,
    pub events: EventIndex,
    /// The number of calendars whose events could not be fetched. Their
    /// events are missing from `events`.
    pub failed_calendars: usize,
}

impl FetchedData {
    /// Whether there are calendars and the events of every one of them
    /// could not be fetched: the index is then empty for want of answers,
    /// not for want of events.
    pub open spec fn every_calendar_failed(self) -> bool {
        self.calendars@.len() > 0 && self.failed_calendars >= self.calendars@.len()
    }

    /// Whether there are calendars and the events of none of them could be
    /// fetched.
    pub fn all_failed(&self) -> (b: bool)
        ensures
            b == self.every_calendar_failed(),
    {
        self.calendars.len() > 0 && self.failed_calendars >= self.calendars.len()
    }
}

/// Why a pass of loading has no result.
#[derive(Debug, Clone, Copy, PartialEq, Eq, Structural)]
pub enum FetchError {
    /// The list of the calendars could not be fetched.
    Calendars(ApiError),
    /// The pass is not over.
    Unfinished,
}

impl FetchError {
    /// The text of the error.
    pub fn message(&self) -> (r: &'static str)
        ensures
            r@ == match self {
                FetchError::Calendars(_) => "Failed to fetch calendars"@,
                FetchError::Unfinished => "The fetch is not finished"@,
            },
    {
        match self {
            FetchError::Calendars(_) => "Failed to fetch calendars",
            FetchError::Unfinished => "The fetch is not finished",
        }
    }
}

/// One pass of loading: first the calendars, then the events of each
/// calendar in turn. A calendar whose events cannot be fetched is counted
/// and passed over; only a failure to list the calendars ends the pass
/// without a result.
#[derive(Debug)]
pub struct Fetch {
    /// The window of days whose events are fetched.
    pub range: DateRange,
    pub calendars: Vec<Calendar>,
    pub events: EventIndex,
    /// The number of calendars that are done.
    pub position: usize,
    /// The number of calendars whose events could not be fetched.
    pub failed: usize,
    pub phase: FetchPhase,
    /// Why the calendars could not be listed.
    pub error: Option<ApiError>,
}

impl Fetch {
    /// Whether the pass waits for the events of a calendar.
    pub open spec fn awaits_events(self) -> bool {
        self.phase == FetchPhase::Events && self.position < self.calendars@.len()
    }

    /// A pass over the days of `range`, before anything was asked.
    pub fn new(range: DateRange) -> (r: Fetch)
        ensures
            r.range == range,
            r.calendars@.len() == 0,
            r.events@ == Map::<Date, Seq<Event>>::empty(),
            r.position == 0,
            r.failed == 0,
            r.phase == FetchPhase::Calendars,
            r.error is None,
    {
        Fetch {
            range,
            calendars: Vec::new(),
            events: EventIndex::new(),
            position: 0,
            failed: 0,
            phase: FetchPhase::Calendars,
            error: None,
        }
    }

    /// What is to be asked of the service now.
    pub fn step(&self) -> (r: FetchStep)
        ensures
            r == match self.phase {
                FetchPhase::Calendars => FetchStep::ListCalendars,
                FetchPhase::Events => if self.position < self.calendars@.len() {
                    FetchStep::ListEvents {
                        calendar_id: self.calendars@[self.position as int].id,
                        time_min: self.range.start,
                        time_max: self.range.end,
                    }
                } else {
                    FetchStep::Done
                },
                FetchPhase::Finished => FetchStep::Done,
            },
    {
        match self.phase {
            FetchPhase::Calendars => FetchStep::ListCalendars,
            FetchPhase::Events => {
                if self.position < self.calendars.len() {
                    FetchStep::ListEvents {
                        calendar_id: self.calendars[self.position].id.clone(),
                        time_min: self.range.start,
                        time_max: self.range.end,
                    }
                } else {
                    FetchStep::Done
                }
            },
            FetchPhase::Finished => FetchStep::Done,
        }
    }

    /// Takes in the list of the calendars, or the failure to get it. Out of
    /// turn it changes nothing.
    pub fn on_calendars(&mut self, result: Result<Vec<Calendar>, ApiError>)
        ensures
            old(self).phase != FetchPhase::Calendars ==> *final(self) == *old(self),
            old(self).phase == FetchPhase::Calendars ==> match result {
                Ok(calendars) => *final(self) == (Fetch {
                    calendars,
                    phase: if calendars@.len() == 0 {
                        FetchPhase::Finished
                    } else {
                        FetchPhase::Events
                    },
                    ..*old(self)
                }),
                Err(error) => *final(self) == (Fetch {
                    error: Some(error),
                    phase: FetchPhase::Finished,
                    ..*old(self)
                }),
            },
    {
        if self.phase != FetchPhase::Calendars {
            return ;
        }
        match result {
            Ok(calendars) => {
                self.phase = if calendars.len() == 0 {
                    FetchPhase::Finished
                } else {
                    FetchPhase::Events
                };
                self.calendars = calendars;
            },
            Err(error) => {
                self.error = Some(error);
                self.phase = FetchPhase::Finished;
            },
        }
    }

    /// Takes in the events of the calendar that is due, or the failure to
    /// get them, and goes on to the next calendar. The events are put into
    /// the index; a failure is counted and nothing else. Out of turn it
    /// changes nothing.
    pub fn on_events(&mut self, result: Result<Vec<Event>, ApiError>)
        ensures
            !old(self).awaits_events() ==> *final(self) == *old(self),
            old(self).awaits_events() ==> {
                &&& final(self).range == old(self).range
                &&& final(self).calendars == old(self).calendars
                &&& final(self).error == old(self).error
                &&& final(self).position == old(self).position + 1
                &&& final(self).phase == if old(self).position + 1 == old(self).calendars@.len() {
                    FetchPhase::Finished
                } else {
                    FetchPhase::Events
                }
                &&& match result {
                    Ok(events) => {
                        &&& final(self).events@ == grouped(
                            old(self).events@,
                            old(self).calendars@[old(self).position as int].id,
                            events@,
                        )
                        &&& final(self).failed == old(self).failed
                    },
                    Err(_) => {
                        &&& final(self).events == old(self).events
                        &&& final(self).failed == if old(self).failed < usize::MAX {
                            old(self).failed + 1
                        } else {
                            usize::MAX as int
                        }
                    },
                }
            },
    {
        if self.phase != FetchPhase::Events || self.position >= self.calendars.len() {
            return ;
        }
        match result {
            Ok(events) => {
                group_events(&mut self.events, &self.calendars[self.position].id, events);
            },
            Err(_) => {
                if self.failed < usize::MAX {
                    self.failed = self.failed + 1;
                }
            },
        }
        self.position = self.position + 1;
        if self.position == self.calendars.len() {
            self.phase = FetchPhase::Finished;
        }
    }

    /// What the pass gathered. There is a result as soon as the pass is
    /// over and the calendars could be listed, also where the events of
    /// some calendars, or of all, could not be fetched.
    pub fn finish(self) -> (r: Result<FetchedData, FetchError>)
        ensures
            match r {
                Ok(data) => {
                    &&& self.phase == FetchPhase::Finished
                    &&& self.error is None
                    &&& data.calendars == self.calendars
                    &&& data.events == self.events
                    &&& data.failed_calendars == self.failed
                },
                Err(FetchError::Calendars(error)) => self.phase == FetchPhase::Finished
                    && self.error == Some(error),
                Err(FetchError::Unfinished) => self.phase != FetchPhase::Finished,
            },
    {
        if self.phase != FetchPhase::Finished {
            return Err(FetchError::Unfinished);
        }
        match self.error {
            Some(error) => Err(FetchError::Calendars(error)),
            None => Ok(
                FetchedData {
                    calendars: self.calendars,
                    events: self.events,
                    failed_calendars: self.failed,
                },
            ),
        }
    }
}

} // verus!
