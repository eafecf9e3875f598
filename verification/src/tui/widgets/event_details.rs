//! The details of one event.

use super::events::{event_time_text, format_time, summary_text};
use crate::calendar::models::{Attendee, Calendar, Event};
use crate::text::str_equal;
use crate::tui::color_utils::{default_event_color, hex_color, parse_hex_color, Color};
use crate::tui::state::{first_with_id, AppState, ViewFocus};
use vstd::prelude::*;

verus! {

/// What an invited person answered.
#[derive(Debug, Clone, Copy, PartialEq, Eq, Structural)]
pub enum Response {
    Accepted,
    Declined,
    Tentative,
    /// No answer, or one that is none of these.
    Unknown,
}

/// One line of the details of an event.
#[derive(Debug, Clone, PartialEq)]
pub enum DetailLine<'a> {
    /// The state has no event at the place asked for.
    NotFound,
    /// The calendar of the event: its colour and its name.
    Calendar { color: Color, name: &'a str },
    /// An empty line.
    Blank,
    /// The title of the event.
    Title(&'a str),
    /// The time of the event.
    Time(String),
    Location(&'a str),
    /// The heading of the description.
    DescriptionHeading,
    Description(&'a str),
    Status(&'a str),
    /// The heading of the list of invited people.
    AttendeesHeading,
    /// One invited person: the answer, the name, or the address where no
    /// name is known, and whether coming is optional.
    Attendee { response: Response, name: &'a str, optional: bool },
    /// The link to the event on the web.
    Link(&'a str),
    /// The keys of the details.
    Hint,
}

/// The model of a line of the details of an event.
pub enum DetailText {
    NotFound,
    Calendar { color: Color, name: Seq<char> },
    Blank,
    Title(Seq<char>),
    Time(Seq<char>),
    Location(Seq<char>),
    DescriptionHeading,
    Description(Seq<char>),
    Status(Seq<char>),
    AttendeesHeading,
    Attendee { response: Response, name: Seq<char>, optional: bool },
    Link(Seq<char>),
    Hint,
}

impl<'a> View for DetailLine<'a> {
    type V = DetailText;

    open spec fn view(&self) -> DetailText {
        match self {
            DetailLine::NotFound => DetailText::NotFound,
            DetailLine::Calendar { color, name } => DetailText::Calendar {
                color: *color,
                name: name@,
            },
            DetailLine::Blank => DetailText::Blank,
            DetailLine::Title(text) => DetailText::Title(text@),
            DetailLine::Time(text) => DetailText::Time(text@),
            DetailLine::Location(text) => DetailText::Location(text@),
            DetailLine::DescriptionHeading => DetailText::DescriptionHeading,
            DetailLine::Description(text) => DetailText::Description(text@),
            DetailLine::Status(text) => DetailText::Status(text@),
            DetailLine::AttendeesHeading => DetailText::AttendeesHeading,
            DetailLine::Attendee { response, name, optional } => DetailText::Attendee {
                response: *response,
                name: name@,
                optional: *optional,
            },
            DetailLine::Link(text) => DetailText::Link(text@),
            DetailLine::Hint => DetailText::Hint,
        }
    }
}

/// The models of the lines `lines`.
pub open spec fn detail_views(lines: Seq<DetailLine>) -> Seq<DetailText> {
    lines.map_values(|line: DetailLine| line@)
}

/// The answer that the text `status` of the service stands for.
pub open spec fn response_of(status: Option<String>) -> Response {
    match status {
        Some(text) => if text@ == "accepted"@ {
            Response::Accepted
        } else if text@ == "declined"@ {
            Response::Declined
        } else if text@ == "tentative"@ {
            Response::Tentative
        } else {
            Response::Unknown
        },
        None => Response::Unknown,
    }
}

/// The colour in which calendar `calendar` is shown: its own where it names
/// one that can be read, else the colour for events without one.
pub open spec fn calendar_color(calendar: Calendar) -> Color {
    match calendar.background_color {
        Some(hex) => match hex_color(hex@) {
            Some(color) => color,
            None => Color::Gray,
        },
        None => Color::Gray,
    }
}

/// The lines for the calendar of `event`: its colour and name and an empty
/// line, where the event names a calendar that the state knows.
pub open spec fn calendar_lines(state: AppState, event: Event) -> Seq<DetailText> {
    match event.calendar_id {
        Some(id) => match first_with_id(state.calendars@, id@) {
            Some(calendar) => seq![
                DetailText::Calendar { color: calendar_color(calendar), name: calendar.summary@ },
                DetailText::Blank,
            ],
            None => Seq::empty(),
        },
        None => Seq::empty(),
    }
}

/// The line of one invited person.
pub open spec fn attendee_line(attendee: Attendee) -> DetailText {
    DetailText::Attendee {
        response: response_of(attendee.response_status),
        name: match attendee.display_name {
            Some(name) => name@,
            None => attendee.email@,
        },
        optional: attendee.optional == Some(true),
    }
}

/// The lines of the invited people of `event`: a heading, one line for each
/// of them and an empty line; nothing where nobody is invited.
pub open spec fn attendees_lines(event: Event) -> Seq<DetailText> {
    match event.attendees {
        Some(list) => if list@.len() > 0 {
            seq![DetailText::AttendeesHeading] + list@.map_values(|a: Attendee| attendee_line(a))
                + seq![DetailText::Blank]
        } else {
            Seq::empty()
        },
        None => Seq::empty(),
    }
}

/// The line `line` and an empty line, where there is a text to show.
pub open spec fn optional_lines(text: Option<String>, line: spec_fn(Seq<char>) -> DetailText) -> Seq<
    DetailText,
> {
    match text {
        Some(t) => seq![line(t@), DetailText::Blank],
        None => Seq::empty(),
    }
}

/// The lines of the description of `event`.
pub open spec fn description_lines(event: Event) -> Seq<DetailText> {
    match event.description {
        Some(text) => seq![
            DetailText::DescriptionHeading,
            DetailText::Description(text@),
            DetailText::Blank,
        ],
        None => Seq::empty(),
    }
}

/// The lines of the details of `event` in state `state`: the calendar, the
/// title, the time, and then what the event has of place, description,
/// status, invited people and link, each followed by an empty line; at the
/// end the keys of the details.
pub open spec fn event_detail_lines(state: AppState, event: Event) -> Seq<DetailText> {
    calendar_lines(state, event) + seq![
        DetailText::Title(summary_text(event)),
        DetailText::Blank,
        DetailText::Time(event_time_text(event)),
        DetailText::Blank,
    ] + optional_lines(event.location, |t: Seq<char>| DetailText::Location(t))
        + description_lines(event) + optional_lines(
        event.status,
        |t: Seq<char>| DetailText::Status(t),
    ) + attendees_lines(event) + optional_lines(
        event.html_link,
        |t: Seq<char>| DetailText::Link(t),
    ) + seq![DetailText::Hint]
}

/// The lines of the details of the event at `event_index` among the events
/// of the selected day; one line that says that there is none where the
/// day has no event at that place.
pub open spec fn detail_lines(state: AppState, event_index: usize) -> Seq<DetailText> {
    let events = state.selected_events();
    if event_index >= events.len() {
        seq![DetailText::NotFound]
    } else {
        event_detail_lines(state, events[event_index as int])
    }
}

/// How far a text of `content_lines` lines can be scrolled in a pane of
/// `visible_height` rows: by the lines that do not fit.
pub open spec fn max_scroll(content_lines: int, visible_height: int) -> int {
    if content_lines <= visible_height {
        0
    } else {
        content_lines - visible_height
    }
}

/// The answer that the text of the service stands for.
pub fn response_from_status(status: &Option<String>) -> (r: Response)
    ensures
        r == response_of(*status),
{
    match status {
        Some(text) => {
            if str_equal(text.as_str(), "accepted") {
                Response::Accepted
            } else if str_equal(text.as_str(), "declined") {
                Response::Declined
            } else if str_equal(text.as_str(), "tentative") {
                Response::Tentative
            } else {
                Response::Unknown
            }
        },
        None => Response::Unknown,
    }
}

/// The colour in which `calendar` is shown.
pub fn color_of_calendar(calendar: &Calendar) -> (r: Color)
    ensures
        r == calendar_color(*calendar),
{
    match &calendar.background_color {
        Some(hex) => match parse_hex_color(hex.as_str()) {
            Some(color) => color,
            None => default_event_color(),
        },
        None => default_event_color(),
    }
}

/// The details of one event of the selected day, over the state that they
/// show.
#[derive(Debug)]
pub struct EventDetailsWidget<'a> {
    pub state: &'a AppState,
    /// The place of the event among the events of the selected day.
    pub event_index: usize,
    /// The number of lines by which the text is to be scrolled.
    pub scroll_offset: usize,
}

impl<'a> EventDetailsWidget<'a> {
    /// The details of the event at `event_index`, scrolled by
    /// `scroll_offset` lines.
    pub fn new(state: &'a AppState, event_index: usize, scroll_offset: usize) -> (r:
        EventDetailsWidget<'a>)
        ensures
            r.state == state,
            r.event_index == event_index,
            r.scroll_offset == scroll_offset,
    {
        EventDetailsWidget { state, event_index, scroll_offset }
    }

    /// The text for the time of `event`.
    pub fn format_time(event: &Event) -> (r: String)
        ensures
            r@ == event_time_text(*event),
    {
        format_time(event)
    }

    /// How far a text of `content_lines` lines can be scrolled in a pane of
    /// `visible_height` rows: not at all where it fits, else by the lines
    /// that do not fit.
    pub fn calculate_max_scroll(content_lines: usize, visible_height: usize) -> (r: usize)
        ensures
            r == max_scroll(content_lines as int, visible_height as int),
    {
        if content_lines <= visible_height {
            0
        } else {
            content_lines - visible_height
        }
    }

    /// The number of lines by which the text is scrolled when it has
    /// `content_lines` lines and the pane `visible_height` rows: what was
    /// asked for, but no more than is possible.
    pub fn scroll_position(&self, content_lines: usize, visible_height: usize) -> (r: usize)
        ensures
            r == if self.scroll_offset <= max_scroll(content_lines as int, visible_height as int) {
                self.scroll_offset as int
            } else {
                max_scroll(content_lines as int, visible_height as int)
            },
    {
        let limit: usize = EventDetailsWidget::calculate_max_scroll(content_lines, visible_height);
        if self.scroll_offset <= limit {
            self.scroll_offset
        } else {
            limit
        }
    }

    /// Whether the pane has the focus.
    pub fn is_focused(&self) -> (b: bool)
        ensures
            b == (self.state.view_focus == ViewFocus::Events),
    {
        self.state.view_focus == ViewFocus::Events
    }

    /// The lines of the details, from the top.
    pub fn lines(&self) -> (r: Vec<DetailLine<'a>>)
        ensures
            detail_views(r@) == detail_lines(*self.state, self.event_index),
    {
        let state: &'a AppState = self.state;
        let mut lines: Vec<DetailLine<'a>> = Vec::new();
        let found: Option<&'a Vec<Event>> = state.events.get(&state.selected_date);
        let event: &'a Event = match found {
            Some(events) => {
                if self.event_index >= events.len() {
                    lines.push(DetailLine::NotFound);
                    assert(detail_views(lines@) =~= seq![DetailText::NotFound]);
                    return lines;
                }
                &events[self.event_index]
            },
            None => {
                lines.push(DetailLine::NotFound);
                assert(detail_views(lines@) =~= seq![DetailText::NotFound]);
                return lines;
            },
        };
        assert(*event == state.selected_events()[self.event_index as int]);
        match &event.calendar_id {
            Some(id) => match state.get_calendar_by_id(id.as_str()) {
                Some(calendar) => {
                    lines.push(
                        DetailLine::Calendar {
                            color: color_of_calendar(calendar),
                            name: calendar.summary.as_str(),
                        },
                    );
                    lines.push(DetailLine::Blank);
                },
                None => {},
            },
            None => {},
        }
        assert(detail_views(lines@) =~= calendar_lines(*state, *event));
        let title: &'a str = match &event.summary {
            Some(text) => text.as_str(),
            None => "(No title)",
        };
        let ghost s1 = lines@;
        lines.push(DetailLine::Title(title));
        lines.push(DetailLine::Blank);
        lines.push(DetailLine::Time(format_time(event)));
        lines.push(DetailLine::Blank);
        assert(detail_views(lines@) =~= detail_views(s1) + seq![
            DetailText::Title(summary_text(*event)),
            DetailText::Blank,
            DetailText::Time(event_time_text(*event)),
            DetailText::Blank,
        ]);
        let ghost s2 = lines@;
        match &event.location {
            Some(text) => {
                lines.push(DetailLine::Location(text.as_str()));
                lines.push(DetailLine::Blank);
            },
            None => {},
        }
        assert(detail_views(lines@) =~= detail_views(s2) + optional_lines(
            event.location,
            |t: Seq<char>| DetailText::Location(t),
        ));
        let ghost s3 = lines@;
        match &event.description {
            Some(text) => {
                lines.push(DetailLine::DescriptionHeading);
                lines.push(DetailLine::Description(text.as_str()));
                lines.push(DetailLine::Blank);
            },
            None => {},
        }
        assert(detail_views(lines@) =~= detail_views(s3) + description_lines(*event));
        let ghost s4 = lines@;
        match &event.status {
            Some(text) => {
                lines.push(DetailLine::Status(text.as_str()));
                lines.push(DetailLine::Blank);
            },
            None => {},
        }
        assert(detail_views(lines@) =~= detail_views(s4) + optional_lines(
            event.status,
            |t: Seq<char>| DetailText::Status(t),
        ));
        let ghost s5 = lines@;
        match &event.attendees {
            Some(list) => {
                if list.len() > 0 {
                    lines.push(DetailLine::AttendeesHeading);
                    let mut i: usize = 0;
                    while i < list.len()
                        invariant
                            i <= list@.len(),
                            detail_views(lines@) == detail_views(s5) + seq![
                                DetailText::AttendeesHeading,
                            ] + list@.take(i as int).map_values(|a: Attendee| attendee_line(a)),
                        decreases list@.len() - i,
                    {
                        let attendee: &'a Attendee = &list[i];
                        let name: &'a str = match &attendee.display_name {
                            Some(text) => text.as_str(),
                            None => attendee.email.as_str(),
                        };
                        let optional = match attendee.optional {
                            Some(flag) => flag,
                            None => false,
                        };
                        let ghost before = lines@;
                        lines.push(
                            DetailLine::Attendee {
                                response: response_from_status(&attendee.response_status),
                                name,
                                optional,
                            },
                        );
                        i = i + 1;
                        assert(detail_views(lines@) =~= detail_views(before) + seq![
                            attendee_line(list@[i - 1]),
                        ]);
                        assert(list@.take(i as int).map_values(|a: Attendee| attendee_line(a))
                            =~= list@.take(i - 1).map_values(|a: Attendee| attendee_line(a))
                            + seq![attendee_line(list@[i - 1])]);
                    }
                    assert(list@.take(i as int) =~= list@);
                    let ghost before = lines@;
                    lines.push(DetailLine::Blank);
                    assert(detail_views(lines@) =~= detail_views(before) + seq![DetailText::Blank]);
                }
            },
            None => {},
        }
        assert(detail_views(lines@) =~= detail_views(s5) + attendees_lines(*event));
        let ghost s6 = lines@;
        match &event.html_link {
            Some(text) => {
                lines.push(DetailLine::Link(text.as_str()));
                lines.push(DetailLine::Blank);
            },
            None => {},
        }
        assert(detail_views(lines@) =~= detail_views(s6) + optional_lines(
            event.html_link,
            |t: Seq<char>| DetailText::Link(t),
        ));
        let ghost s7 = lines@;
        lines.push(DetailLine::Hint);
        assert(detail_views(lines@) =~= detail_views(s7) + seq![DetailText::Hint]);
        assert(detail_views(lines@) =~= event_detail_lines(*state, *event));
        lines
    }
}

} // verus!
