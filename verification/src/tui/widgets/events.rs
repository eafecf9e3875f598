//! The list of the events of the selected day.

use crate::calendar::event_time::EventTime;
use crate::calendar::models::Event;
use crate::date::LocalDateTime;
use crate::text::{push_char, push_two_digits, two_digits};
use crate::tui::state::{AppState, ViewFocus};
use vstd::prelude::*;
use vstd::string::StringExecFns;

verus! {

/// A time of day as it is shown: two digits for the hour, a colon, two
/// digits for the minute.
pub open spec fn clock_text(hour: int, minute: int) -> Seq<char> {
    two_digits(hour) + seq![':'] + two_digits(minute)
}

/// The text for the time of an event, given the hour and minute of its start
/// and of its end where they are instants: start and end with a hyphen
/// between them, the start alone, or `All day` where the start is no
/// instant.
pub open spec fn time_label_text(start: Option<(int, int)>, end: Option<(int, int)>) -> Seq<char> {
    match start {
        Some(s) => match end {
            Some(e) => clock_text(s.0, s.1) + " - "@ + clock_text(e.0, e.1),
            None => clock_text(s.0, s.1),
        },
        None => "All day"@,
    }
}

/// The hour and the minute of `time`, where it is an instant.
pub open spec fn clock_of(time: Option<EventTime>) -> Option<(int, int)> {
    match time {
        Some(t) => t.clock(),
        None => None,
    }
}

/// The text for the time of `event`.
pub open spec fn event_time_text(event: Event) -> Seq<char> {
    time_label_text(clock_of(EventTime::of(event.start)), clock_of(EventTime::of(event.end)))
}

/// Puts a time of day at the end of `text`.
fn push_clock(text: &mut String, t: &LocalDateTime)
    ensures
        final(text)@ == old(text)@ + clock_text(t.hour as int, t.minute as int),
{
    push_two_digits(text, t.hour);
    push_char(text, ':');
    push_two_digits(text, t.minute);
    assert(text@ =~= old(text)@ + clock_text(t.hour as int, t.minute as int));
}

/// The text for the time of an event whose start and end were read as
/// `start` and `end`: the times of both where both are instants, the time of
/// the start where only that is an instant, and `All day` where the start
/// is none.
pub fn time_label(start: Option<EventTime>, end: Option<EventTime>) -> (r: String)
    ensures
        r@ == time_label_text(clock_of(start), clock_of(end)),
{
    match start {
        Some(EventTime::Instant(s)) => {
            let mut text = String::new();
            push_clock(&mut text, &s);
            match end {
                Some(EventTime::Instant(e)) => {
                    text.append(" - ");
                    push_clock(&mut text, &e);
                    assert(text@ =~= clock_text(s.hour as int, s.minute as int) + " - "@
                        + clock_text(e.hour as int, e.minute as int));
                },
                _ => {
                    assert(text@ =~= clock_text(s.hour as int, s.minute as int));
                },
            }
            text
        },
        _ => String::from_str("All day"),
    }
}

/// The text for the time of `event`: the time of its start and, where the
/// end is an instant too, of its end; `All day` for an event that starts at
/// no instant.
pub fn format_time(event: &Event) -> (r: String)
    ensures
        r@ == event_time_text(*event),
{
    time_label(EventTime::read(&event.start), EventTime::read(&event.end))
}

/// One line of the list of events.
#[derive(Debug, Clone, PartialEq)]
pub enum EventListLine<'a> {
    /// The day has no events.
    NoEvents,
    /// The time and the title of an event. `selected` marks the event that
    /// is marked while the pane has the focus.
    Entry { selected: bool, time: String, summary: &'a str },
    /// The place of the event of the line before.
    Location { selected: bool, place: &'a str },
    /// An empty line.
    Blank,
    /// The keys of the list.
    Hint,
}

/// The model of a line of the list of events.
pub enum ListLine {
    NoEvents,
    Entry { selected: bool, time: Seq<char>, summary: Seq<char> },
    Location { selected: bool, place: Seq<char> },
    Blank,
    Hint,
}

impl<'a> View for EventListLine<'a> {
    type V = ListLine;

    open spec fn view(&self) -> ListLine {
        match self {
            EventListLine::NoEvents => ListLine::NoEvents,
            EventListLine::Entry { selected, time, summary } => ListLine::Entry {
                selected: *selected,
                time: time@,
                summary: summary@,
            },
            EventListLine::Location { selected, place } => ListLine::Location {
                selected: *selected,
                place: place@,
            },
            EventListLine::Blank => ListLine::Blank,
            EventListLine::Hint => ListLine::Hint,
        }
    }
}

/// The title of `event` as it is shown.
pub open spec fn summary_text(event: Event) -> Seq<char> {
    match event.summary {
        Some(s) => s@,
        None => "(No title)"@,
    }
}

/// The lines of one event: its time and title, its place where it has one,
/// and an empty line unless the event is the last of the day.
pub open spec fn entry_lines(event: Event, selected: bool, last: bool) -> Seq<ListLine> {
    seq![ListLine::Entry { selected, time: event_time_text(event), summary: summary_text(event) }]
        + (match event.location {
        Some(place) => seq![ListLine::Location { selected, place: place@ }],
        None => Seq::empty(),
    }) + (if last {
        Seq::empty()
    } else {
        seq![ListLine::Blank]
    })
}

/// The lines of the first `n` of the events `events`, of which the one at
/// `marked` is shown as selected.
pub open spec fn lines_of_first(events: Seq<Event>, marked: Option<usize>, n: int) -> Seq<ListLine>
    decreases n,
{
    if n <= 0 {
        Seq::empty()
    } else {
        lines_of_first(events, marked, n - 1) + entry_lines(
            events[n - 1],
            marked == Some((n - 1) as usize),
            n == events.len(),
        )
    }
}

/// The lines of the list of events in state `state`. A day without events
/// has one line that says so. Else the events follow one another, and while
/// the pane has the focus the marked event is shown as selected and the keys
/// of the list stand at the end.
pub open spec fn list_lines(state: AppState) -> Seq<ListLine> {
    let events = state.selected_events();
    let focused = state.view_focus == ViewFocus::Events;
    if events.len() == 0 {
        seq![ListLine::NoEvents]
    } else {
        lines_of_first(
            events,
            if focused {
                state.selected_event_index
            } else {
                None
            },
            events.len() as int,
        ) + (if focused {
            seq![ListLine::Blank, ListLine::Hint]
        } else {
            Seq::empty()
        })
    }
}

/// The models of the lines `lines`.
pub open spec fn line_views(lines: Seq<EventListLine>) -> Seq<ListLine> {
    lines.map_values(|line: EventListLine| line@)
}

/// The pane of events, as a list, over the state that it shows.
#[derive(Debug)]
pub struct EventListWidget<'a> {
    pub state: &'a AppState,
}

impl<'a> EventListWidget<'a> {
    /// The list of events over `state`.
    pub fn new(state: &'a AppState) -> (r: EventListWidget<'a>)
        ensures
            r.state == state,
    {
        EventListWidget { state }
    }

    /// The text for the time of `event`.
    pub fn format_event_time(event: &Event) -> (r: String)
        ensures
            r@ == event_time_text(*event),
    {
        format_time(event)
    }

    /// Whether the pane has the focus.
    pub fn is_focused(&self) -> (b: bool)
        ensures
            b == (self.state.view_focus == ViewFocus::Events),
    {
        self.state.view_focus == ViewFocus::Events
    }

    /// The lines of the list, from the top.
    pub fn lines(&self) -> (r: Vec<EventListLine<'a>>)
        ensures
            line_views(r@) == list_lines(*self.state),
    {
        let state: &'a AppState = self.state;
        let focused = state.view_focus == ViewFocus::Events;
        let mut lines: Vec<EventListLine<'a>> = Vec::new();
        let events: &'a Vec<Event> = match state.events.get(&state.selected_date) {
            Some(events) => events,
            None => {
                lines.push(EventListLine::NoEvents);
                assert(line_views(lines@) =~= seq![ListLine::NoEvents]);
                return lines;
            },
        };
        if events.len() == 0 {
            lines.push(EventListLine::NoEvents);
            assert(line_views(lines@) =~= seq![ListLine::NoEvents]);
            return lines;
        }
        let ghost marked = if focused {
            state.selected_event_index
        } else {
            None
        };
        assert(line_views(lines@) =~= Seq::<ListLine>::empty());
        let mut i: usize = 0;
        while i < events.len()
            invariant
                i <= events@.len(),
                events@ == state.selected_events(),
                focused == (state.view_focus == ViewFocus::Events),
                marked == if focused {
                    state.selected_event_index
                } else {
                    None
                },
                line_views(lines@) == lines_of_first(events@, marked, i as int),
            decreases events@.len() - i,
        {
            let event: &'a Event = &events[i];
            let selected = focused && match state.selected_event_index {
                Some(index) => index == i,
                None => false,
            };
            let ghost before = lines@;
            let summary: &'a str = match &event.summary {
                Some(s) => s.as_str(),
                None => "(No title)",
            };
            lines.push(EventListLine::Entry { selected, time: format_time(event), summary });
            match &event.location {
                Some(place) => {
                    lines.push(EventListLine::Location { selected, place: place.as_str() });
                },
                None => {},
            }
            if i < events.len() - 1 {
                lines.push(EventListLine::Blank);
            }
            i = i + 1;
            assert(line_views(lines@) =~= line_views(before) + entry_lines(
                events@[i - 1],
                marked == Some((i - 1) as usize),
                i == events@.len(),
            ));
        }
        if focused {
            let ghost before = lines@;
            lines.push(EventListLine::Blank);
            lines.push(EventListLine::Hint);
            assert(line_views(lines@) =~= line_views(before) + seq![ListLine::Blank, ListLine::Hint]);
        }
        assert(line_views(lines@) =~= list_lines(*self.state));
        lines
    }
}

} // verus!
