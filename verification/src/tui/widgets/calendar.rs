//! The month grid of the calendar pane.

use crate::date::{days_in_month, ymd, Date, Weekday, MAX_YEAR, MIN_YEAR};
use crate::tui::state::{AppState, DateRange, ViewFocus};
use vstd::prelude::*;

verus! {

/// The least width of the pane, in columns, at which the grid is drawn.
pub const MIN_GRID_WIDTH: u16 = 28;

/// The least height of the pane, in rows, at which the grid is drawn.
pub const MIN_GRID_HEIGHT: u16 = 12;

/// How a day of the grid is marked. Of the marks that apply to a day, the
/// first in this order is shown.
#[derive(Debug, Clone, Copy, PartialEq, Eq, Structural)]
pub enum DayMark {
    /// The day is today and is selected.
    TodaySelected,
    /// The day is selected.
    Selected,
    /// The day is today.
    Today,
    /// The day has events.
    HasEvents,
    /// Nothing of these.
    Plain,
}

/// One day in the grid of a month. The columns of the grid are the days of
/// the week, from Sunday; the rows are the weeks.
#[derive(Debug, Clone, Copy, PartialEq, Eq, Structural)]
pub struct DayCell {
    /// The day of the month, from 1.
    pub day: u32,
    /// The week of the grid, from 0.
    pub row: u32,
    /// The day of the week, from 0 for Sunday.
    pub column: u32,
    pub mark: DayMark,
}

/// The calendar pane over the state that it shows.
#[derive(Debug)]
pub struct CalendarWidget<'a> {
    pub state: &'a AppState,
}

/// The mark of day `d` in state `state`.
pub open spec fn mark_of(state: AppState, d: Date) -> DayMark {
    if d == state.today && d == state.selected_date {
        DayMark::TodaySelected
    } else if d == state.selected_date {
        DayMark::Selected
    } else if d == state.today {
        DayMark::Today
    } else if state.events.events_on(d).len() > 0 {
        DayMark::HasEvents
    } else {
        DayMark::Plain
    }
}

/// The column of the grid in which the first day of the given month
/// stands: its day of the week, counted from Sunday.
pub open spec fn first_column(year: int, month: int) -> int {
    ymd(year, month, 1).day_number() % 7
}

/// The cell of day `day` of the selected month of `state`.
pub open spec fn cell_of(state: AppState, day: int) -> DayCell {
    let year = state.selected_date@.year;
    let month = state.selected_date@.month;
    let slot = first_column(year, month) + day - 1;
    DayCell {
        day: day as u32,
        row: (slot / 7) as u32,
        column: (slot % 7) as u32,
        mark: mark_of(state, Date::from_model(ymd(year, month, day))),
    }
}

impl<'a> CalendarWidget<'a> {
    /// The calendar pane over `state`.
    pub fn new(state: &'a AppState) -> (r: CalendarWidget<'a>)
        ensures
            r.state == state,
    {
        CalendarWidget { state }
    }

    /// The number of days of the given month.
    pub fn get_days_in_month(year: i32, month: u32) -> (n: u32)
        requires
            MIN_YEAR <= year <= MAX_YEAR,
            1 <= month <= 12,
        ensures
            n == days_in_month(year as int, month as int),
    {
        DateRange::last_day_of_month(year, month).day()
    }

    /// The day of the week of the first day of the given month.
    pub fn get_first_weekday(year: i32, month: u32) -> (w: Weekday)
        requires
            MIN_YEAR <= year <= MAX_YEAR,
            1 <= month <= 12,
        ensures
            w.days_from_monday() == (ymd(year as int, month as int, 1).day_number() - 1) % 7,
    {
        Date::first_day_of_month(year, month).weekday()
    }

    /// The column of a day of the week in the grid, whose weeks begin on
    /// Sunday.
    pub fn weekday_to_offset(weekday: Weekday) -> (offset: u32)
        ensures
            offset == (weekday.days_from_monday() + 1) % 7,
    {
        match weekday {
            Weekday::Sun => 0,
            Weekday::Mon => 1,
            Weekday::Tue => 2,
            Weekday::Wed => 3,
            Weekday::Thu => 4,
            Weekday::Fri => 5,
            Weekday::Sat => 6,
        }
    }

    /// Whether the pane has the focus.
    pub fn is_focused(&self) -> (b: bool)
        ensures
            b == (self.state.view_focus == ViewFocus::Calendar),
    {
        self.state.view_focus == ViewFocus::Calendar
    }

    /// Whether a pane whose inside is `width` columns wide and `height` rows
    /// high has room for the grid.
    pub fn fits(width: u16, height: u16) -> (b: bool)
        ensures
            b == (width >= MIN_GRID_WIDTH && height >= MIN_GRID_HEIGHT),
    {
        !(height < MIN_GRID_HEIGHT || width < MIN_GRID_WIDTH)
    }

    /// The name of the selected month, for the title of the pane.
    pub fn title_month(&self) -> (r: &'static str)
        ensures
            r@ == month_name_text(self.state.selected_date@.month),
    {
        month_name(self.state.selected_date.month())
    }

    /// The days of the selected month, in order, each with its place in the
    /// grid and its mark. The first day stands in the first row, in the
    /// column of its day of the week; the grid has at most six rows.
    pub fn cells(&self) -> (r: Vec<DayCell>)
        ensures
            r@.len() == days_in_month(
                self.state.selected_date@.year,
                self.state.selected_date@.month,
            ),
            forall|i: int| 0 <= i < r@.len() ==> #[trigger] r@[i] == cell_of(*self.state, i + 1),
            forall|i: int| 0 <= i < r@.len() ==> (#[trigger] r@[i]).row < 6 && r@[i].column < 7,
    {
        let selected = self.state.selected_date;
        let year: i32 = selected.year();
        let month: u32 = selected.month();
        let days: u32 = CalendarWidget::get_days_in_month(year, month);
        let first = CalendarWidget::get_first_weekday(year, month);
        let offset: u32 = CalendarWidget::weekday_to_offset(first);
        assert(offset == first_column(year as int, month as int));
        let mut cells: Vec<DayCell> = Vec::new();
        let mut day: u32 = 1;
        while day <= days
            invariant
                1 <= day <= days + 1,
                days == days_in_month(year as int, month as int),
                days <= 31,
                offset == first_column(year as int, month as int),
                offset < 7,
                MIN_YEAR <= year <= MAX_YEAR,
                1 <= month <= 12,
                year == self.state.selected_date@.year,
                month == self.state.selected_date@.month,
                selected == self.state.selected_date,
                cells@.len() == day - 1,
                forall|i: int| 0 <= i < cells@.len() ==> #[trigger] cells@[i] == cell_of(*self.state, i + 1),
                forall|i: int| 0 <= i < cells@.len() ==> (#[trigger] cells@[i]).row < 6 && cells@[i].column < 7,
            decreases days + 1 - day,
        {
            let slot: u32 = offset + day - 1;
            let mark = match Date::from_ymd_opt(year, month, day) {
                Some(date) => {
                    proof {
                        Date::lemma_from_view(date);
                    }
                    let is_today = date == self.state.today;
                    let is_selected = date == selected;
                    if is_today && is_selected {
                        DayMark::TodaySelected
                    } else if is_selected {
                        DayMark::Selected
                    } else if is_today {
                        DayMark::Today
                    } else if self.state.has_events(date) {
                        DayMark::HasEvents
                    } else {
                        DayMark::Plain
                    }
                },
                None => DayMark::Plain,
            };
            cells.push(DayCell { day, row: slot / 7, column: slot % 7, mark });
            day = day + 1;
        }
        cells
    }
}

/// The English name of month `month`, and `Unknown` for a number that is no
/// month.
pub open spec fn month_name_text(month: int) -> Seq<char> {
    if month == 1 {
        "January"@
    } else if month == 2 {
        "February"@
    } else if month == 3 {
        "March"@
    } else if month == 4 {
        "April"@
    } else if month == 5 {
        "May"@
    } else if month == 6 {
        "June"@
    } else if month == 7 {
        "July"@
    } else if month == 8 {
        "August"@
    } else if month == 9 {
        "September"@
    } else if month == 10 {
        "October"@
    } else if month == 11 {
        "November"@
    } else if month == 12 {
        "December"@
    } else {
        "Unknown"@
    }
}

/// The English name of month `month`, from 1 for January.
pub fn month_name(month: u32) -> (r: &'static str)
    ensures
        r@ == month_name_text(month as int),
{
    match month {
        1 => "January",
        2 => "February",
        3 => "March",
        4 => "April",
        5 => "May",
        6 => "June",
        7 => "July",
        8 => "August",
        9 => "September",
        10 => "October",
        11 => "November",
        12 => "December",
        _ => "Unknown",
    }
}

} // verus!
