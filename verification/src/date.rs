//! Calendar days of the proleptic Gregorian calendar.
//!
//! A [`Date`] holds a year, a month and a day as plain integers. Its model is
//! a [`Ymd`]; the position of a day on the time line is its `day_number`,
//! which counts days from January 1 of year 1 (day 1). Arithmetic on dates is
//! done by `chrono`; the contracts of the calls are stated over `day_number`.

use vstd::prelude::*;

verus! {

/// The first year that a date can have.
pub const MIN_YEAR: i32 = -262143;

/// The last year that a date can have.
pub const MAX_YEAR: i32 = 262142;

/// Whether year `y` has a February 29.
pub open spec fn is_leap_year(y: int) -> bool {
    y % 4 == 0 && (y % 100 != 0 || y % 400 == 0)
}

/// The number of days of month `m` in year `y`.
pub open spec fn days_in_month(y: int, m: int) -> int {
    if m == 2 {
        if is_leap_year(y) { 29 } else { 28 }
    } else if m == 4 || m == 6 || m == 9 || m == 11 {
        30
    } else {
        31
    }
}

/// A year has 365 days, and one more in a leap year.
pub open spec fn days_in_year(y: int) -> int {
    if is_leap_year(y) { 366 } else { 365 }
}

/// The number of days of year `y` that lie before the first of month `m`.
pub open spec fn days_before_month(y: int, m: int) -> int
    decreases m,
{
    if m <= 1 {
        0
    } else {
        days_before_month(y, m - 1) + days_in_month(y, m - 1)
    }
}

/// The number of days from January 1 of year 1 up to, and without, January 1
/// of year `y`; negative for `y < 1`.
pub open spec fn days_before_year(y: int) -> int {
    365 * (y - 1) + (y - 1) / 4 - (y - 1) / 100 + (y - 1) / 400
}

/// The mathematical model of a date: a year, a month and a day of the month.
pub struct Ymd {
    pub year: int,
    pub month: int,
    pub day: int,
}

/// The model of the day with year `y`, month `m` and day `d`.
pub open spec fn ymd(y: int, m: int, d: int) -> Ymd {
    Ymd { year: y, month: m, day: d }
}

impl Ymd {
    /// The day exists in the calendar and its year is in range.
    pub open spec fn valid(self) -> bool {
        &&& MIN_YEAR <= self.year <= MAX_YEAR
        &&& 1 <= self.month <= 12
        &&& 1 <= self.day <= days_in_month(self.year, self.month)
    }

    /// The position of the day on the time line: January 1 of year 1 is
    /// day 1, and each day is one more than the day before it.
    pub open spec fn day_number(self) -> int {
        days_before_year(self.year) + days_before_month(self.year, self.month) + self.day
    }

    /// The months counted from January of year 0.
    pub open spec fn month_index(self) -> int {
        self.year * 12 + self.month - 1
    }

    /// Calendar order: by year, then month, then day.
    pub open spec fn lt(self, other: Ymd) -> bool {
        self.year < other.year || (self.year == other.year && (self.month < other.month || (
        self.month == other.month && self.day < other.day)))
    }

    /// Calendar order, equal days included.
    pub open spec fn le(self, other: Ymd) -> bool {
        self.lt(other) || self == other
    }

    /// The day that lies `days` days after this one, where there is one in
    /// range. There is at most one: see `lemma_day_number_injective`.
    pub open spec fn plus_days(self, days: int) -> Option<Date> {
        let target = self.day_number() + days;
        if min_day_number() <= target <= max_day_number() {
            Some(choose|d: Date| d@.valid() && d@.day_number() == target)
        } else {
            None
        }
    }
}

/// The day number of the first date that can be held.
pub open spec fn min_day_number() -> int {
    ymd(MIN_YEAR as int, 1, 1).day_number()
}

/// The day number of the last date that can be held.
pub open spec fn max_day_number() -> int {
    ymd(MAX_YEAR as int, 12, 31).day_number()
}

/// A calendar day. Every value is a day that exists, with a year from
/// `MIN_YEAR` to `MAX_YEAR`.
#[derive(Debug, Clone, Copy, PartialEq, Eq, Structural)]
pub struct Date {
    year: i32,
    month: u32,
    day: u32,
}

impl View for Date {
    type V = Ymd;

    closed spec fn view(&self) -> Ymd {
        Ymd { year: self.year as int, month: self.month as int, day: self.day as int }
    }
}

/// The days of the week, as `chrono` names them.
#[derive(Debug, Clone, Copy, PartialEq, Eq, Structural)]
pub enum Weekday {
    Mon,
    Tue,
    Wed,
    Thu,
    Fri,
    Sat,
    Sun,
}

impl Weekday {
    /// The number of days since the last Monday, from 0 to 6.
    pub open spec fn days_from_monday(self) -> int {
        match self {
            Weekday::Mon => 0,
            Weekday::Tue => 1,
            Weekday::Wed => 2,
            Weekday::Thu => 3,
            Weekday::Fri => 4,
            Weekday::Sat => 5,
            Weekday::Sun => 6,
        }
    }
}

/// A day and a time of day, to the minute.
#[derive(Debug, Clone, Copy, PartialEq, Eq)]
pub struct LocalDateTime {
    pub date: Date,
    /// The hour, from 0 to 23.
    pub hour: u32,
    /// The minute, from 0 to 59.
    pub minute: u32,
}

/// The local date and clock time that the RFC 3339 text `text` names, as
/// year, month, day, hour and minute; `None` for a text that `chrono` does
/// not take for an RFC 3339 date and time.
pub uninterp spec fn rfc3339_local_fields(text: Seq<char>) -> Option<(int, int, int, int, int)>;

/// The day that the text `text` names in the form year, month, day with
/// hyphens between them, as `chrono` reads the format `%Y-%m-%d`; `None` for
/// a text that it does not take.
pub uninterp spec fn ymd_text_fields(text: Seq<char>) -> Option<(int, int, int)>;

/// The day that the text `text` names as year, month and day.
pub open spec fn ymd_text_day(text: Seq<char>) -> Option<Ymd> {
    match ymd_text_fields(text) {
        Some(f) => Some(ymd(f.0, f.1, f.2)),
        None => None,
    }
}

/// Whether `chrono` has a date with these fields.
///
/// Wraps `chrono::NaiveDate::from_ymd_opt`, which returns a date exactly when
/// the day exists in the calendar and the year lies in `chrono`'s range.
#[verifier::external_body]
fn chrono_has_date(year: i32, month: u32, day: u32) -> (b: bool)
    ensures
        b == ymd(year as int, month as int, day as int).valid(),
{
    chrono::NaiveDate::from_ymd_opt(year, month, day).is_some()
}

/// The fields of the day that lies `days` days after the given day.
///
/// Wraps `chrono::NaiveDate::checked_add_signed` with a `TimeDelta` of whole
/// days. `chrono` returns the day whose position on the time line is `days`
/// further, and `None` exactly when that position is outside its range.
#[verifier::external_body]
fn chrono_add_days(year: i32, month: u32, day: u32, days: i64) -> (r: Option<(i32, u32, u32)>)
    requires
        ymd(year as int, month as int, day as int).valid(),
    ensures
        match r {
            Some(t) => {
                &&& ymd(t.0 as int, t.1 as int, t.2 as int).valid()
                &&& ymd(t.0 as int, t.1 as int, t.2 as int).day_number() == ymd(
                    year as int,
                    month as int,
                    day as int,
                ).day_number() + days
            },
            None => {
                let n = ymd(year as int, month as int, day as int).day_number() + days;
                n < min_day_number() || n > max_day_number()
            },
        },
{
    let start = chrono::NaiveDate::from_ymd_opt(year, month, day)?;
    let delta = chrono::TimeDelta::try_days(days)?;
    let moved = start.checked_add_signed(delta)?;
    Some((chrono::Datelike::year(&moved), chrono::Datelike::month(&moved), chrono::Datelike::day(&moved)))
}

/// The fields of the day before the given day.
///
/// Wraps `chrono::NaiveDate::pred_opt`, which returns the previous calendar
/// day, and `None` only for the first day of its range.
#[verifier::external_body]
fn chrono_pred(year: i32, month: u32, day: u32) -> (r: Option<(i32, u32, u32)>)
    requires
        ymd(year as int, month as int, day as int).valid(),
    ensures
        match r {
            Some(t) => {
                &&& ymd(t.0 as int, t.1 as int, t.2 as int).valid()
                &&& ymd(t.0 as int, t.1 as int, t.2 as int).day_number() + 1 == ymd(
                    year as int,
                    month as int,
                    day as int,
                ).day_number()
            },
            None => year == MIN_YEAR && month == 1 && day == 1,
        },
{
    let start = chrono::NaiveDate::from_ymd_opt(year, month, day)?;
    let before = start.pred_opt()?;
    Some((chrono::Datelike::year(&before), chrono::Datelike::month(&before), chrono::Datelike::day(&before)))
}

/// The day of the week of the given day.
///
/// Wraps `chrono::Datelike::weekday` of a `NaiveDate`. In the proleptic
/// Gregorian calendar January 1 of year 1 is a Monday, so the weekday is the
/// day number less one, modulo seven, counted from Monday.
#[verifier::external_body]
fn chrono_weekday(year: i32, month: u32, day: u32) -> (w: Weekday)
    requires
        ymd(year as int, month as int, day as int).valid(),
    ensures
        w.days_from_monday() == (ymd(year as int, month as int, day as int).day_number() - 1) % 7,
{
    match chrono::Datelike::weekday(&chrono::NaiveDate::from_ymd_opt(year, month, day).unwrap()) {
        chrono::Weekday::Mon => Weekday::Mon,
        chrono::Weekday::Tue => Weekday::Tue,
        chrono::Weekday::Wed => Weekday::Wed,
        chrono::Weekday::Thu => Weekday::Thu,
        chrono::Weekday::Fri => Weekday::Fri,
        chrono::Weekday::Sat => Weekday::Sat,
        chrono::Weekday::Sun => Weekday::Sun,
    }
}

/// The fields of the current day in the local time zone.
///
/// Wraps `chrono::Local::now` and `date_naive`. The day depends on the clock
/// and on the time zone of the machine; all that is stated is that it is a
/// day of the calendar. `chrono` reads the clock as a time since 1970 and
/// does not return where the clock stands before that.
#[verifier::external_body]
fn chrono_today() -> (t: (i32, u32, u32))
    ensures
        ymd(t.0 as int, t.1 as int, t.2 as int).valid(),
{
    let now = chrono::Local::now().date_naive();
    (chrono::Datelike::year(&now), chrono::Datelike::month(&now), chrono::Datelike::day(&now))
}

/// The local date, hour and minute of an RFC 3339 date and time.
///
/// Wraps `chrono::DateTime::parse_from_rfc3339`; the fields are those of the
/// parsed value in its own offset (`date_naive`, `hour`, `minute`). What the
/// parser accepts is not stated here: the result has the name
/// `rfc3339_local_fields`. A parsed value is a day of the calendar with an
/// hour below 24 and a minute below 60.
#[verifier::external_body]
fn chrono_parse_rfc3339(text: &str) -> (r: Option<(i32, u32, u32, u32, u32)>)
    ensures
        match r {
            Some(t) => {
                &&& rfc3339_local_fields(text@) == Some(
                    (t.0 as int, t.1 as int, t.2 as int, t.3 as int, t.4 as int),
                )
                &&& ymd(t.0 as int, t.1 as int, t.2 as int).valid()
                &&& t.3 < 24
                &&& t.4 < 60
            },
            None => rfc3339_local_fields(text@) is None,
        },
{
    let parsed = chrono::DateTime::parse_from_rfc3339(text).ok()?;
    let day = parsed.date_naive();
    Some(
        (
            chrono::Datelike::year(&day),
            chrono::Datelike::month(&day),
            chrono::Datelike::day(&day),
            chrono::Timelike::hour(&parsed),
            chrono::Timelike::minute(&parsed),
        ),
    )
}

/// The fields of the day that a text names as year, month and day.
///
/// Wraps `chrono::NaiveDate::parse_from_str` with the format `%Y-%m-%d`.
/// What the parser accepts is not stated here: the result has the name
/// `ymd_text_fields`. A parsed value is a day of the calendar.
#[verifier::external_body]
fn chrono_parse_ymd(text: &str) -> (r: Option<(i32, u32, u32)>)
    ensures
        match r {
            Some(t) => {
                &&& ymd_text_fields(text@) == Some((t.0 as int, t.1 as int, t.2 as int))
                &&& ymd(t.0 as int, t.1 as int, t.2 as int).valid()
            },
            None => ymd_text_fields(text@) is None,
        },
{
    let day = chrono::NaiveDate::parse_from_str(text, "%Y-%m-%d").ok()?;
    Some((chrono::Datelike::year(&day), chrono::Datelike::month(&day), chrono::Datelike::day(&day)))
}

impl Date {
    /// Every date is a day of the calendar.
    #[verifier::type_invariant]
    pub open spec fn inv(self) -> bool {
        self@.valid()
    }

    /// The date whose model is `m`.
    pub closed spec fn from_model(m: Ymd) -> Date {
        Date { year: m.year as i32, month: m.month as u32, day: m.day as u32 }
    }

    /// The date made from the model of a day of the calendar has that model.
    pub proof fn lemma_from_model(m: Ymd)
        requires
            m.valid(),
        ensures
            Date::from_model(m)@ == m,
    {
    }

    /// The date made from the model of a date is that date.
    pub proof fn lemma_from_view(d: Date)
        ensures
            Date::from_model(d@) == d,
    {
    }

    /// The date with the given fields, if that day exists.
    pub fn from_ymd_opt(year: i32, month: u32, day: u32) -> (r: Option<Date>)
        ensures
            r is Some <==> ymd(year as int, month as int, day as int).valid(),
            r matches Some(d) ==> d@ == ymd(year as int, month as int, day as int),
    {
        if chrono_has_date(year, month, day) {
            Some(Date { year, month, day })
        } else {
            None
        }
    }

    /// The current day in the local time zone of the machine: a day of the calendar.
    pub fn today() -> (r: Date)
        ensures
            r@.valid(),
    {
        let t = chrono_today();
        Date { year: t.0, month: t.1, day: t.2 }
    }

    /// The first day that a `Date` can hold.
    pub fn earliest() -> (r: Date)
        ensures
            r@ == ymd(MIN_YEAR as int, 1, 1),
    {
        Date { year: MIN_YEAR, month: 1, day: 1 }
    }

    /// The last day that a `Date` can hold.
    pub fn latest() -> (r: Date)
        ensures
            r@ == ymd(MAX_YEAR as int, 12, 31),
    {
        Date { year: MAX_YEAR, month: 12, day: 31 }
    }

    /// The day that lies `days` days after this one (before it, for a
    /// negative number), or `None` if that day is out of range.
    pub fn checked_add_days(&self, days: i64) -> (r: Option<Date>)
        ensures
            r == self@.plus_days(days as int),
    {
        proof {
            use_type_invariant(self);
        }
        match chrono_add_days(self.year, self.month, self.day, days) {
            Some(t) => {
                let moved = Date { year: t.0, month: t.1, day: t.2 };
                proof {
                    let target = self@.day_number() + days;
                    let chosen = choose|d: Date| d@.valid() && d@.day_number() == target;
                    assert(moved@.valid() && moved@.day_number() == target);
                    lemma_day_number_in_range(moved@);
                    lemma_day_number_injective(moved@, chosen@);
                    lemma_view_injective(moved, chosen);
                }
                Some(moved)
            },
            None => None,
        }
    }

    /// The day before this one, or `None` for the first day of the range.
    pub fn pred_opt(&self) -> (r: Option<Date>)
        ensures
            r == self@.plus_days(-1),
    {
        proof {
            use_type_invariant(self);
        }
        match chrono_pred(self.year, self.month, self.day) {
            Some(t) => {
                let before = Date { year: t.0, month: t.1, day: t.2 };
                proof {
                    let target = self@.day_number() - 1;
                    let chosen = choose|d: Date| d@.valid() && d@.day_number() == target;
                    assert(before@.valid() && before@.day_number() == target);
                    lemma_day_number_in_range(before@);
                    lemma_day_number_injective(before@, chosen@);
                    lemma_view_injective(before, chosen);
                }
                Some(before)
            },
            None => {
                assert(self@ == ymd(MIN_YEAR as int, 1, 1));
                None
            },
        }
    }

    /// The day of the week.
    pub fn weekday(&self) -> (w: Weekday)
        ensures
            w.days_from_monday() == (self@.day_number() - 1) % 7,
    {
        proof {
            use_type_invariant(self);
        }
        chrono_weekday(self.year, self.month, self.day)
    }

    /// Whether this day comes before `other` in the calendar.
    pub fn is_before(&self, other: &Date) -> (b: bool)
        ensures
            b == self@.lt(other@),
    {
        self.year < other.year || (self.year == other.year && (self.month < other.month || (
        self.month == other.month && self.day < other.day)))
    }

    /// Whether this day is `other` or comes before it.
    pub fn is_on_or_before(&self, other: &Date) -> (b: bool)
        ensures
            b == self@.le(other@),
    {
        !other.is_before(self)
    }

    /// Whether both days lie in one month of one year.
    pub fn same_month(&self, other: &Date) -> (b: bool)
        ensures
            b == (self@.month_index() == other@.month_index()),
    {
        proof {
            use_type_invariant(self);
            use_type_invariant(other);
        }
        self.year == other.year && self.month == other.month
    }

    /// The first day of the given month.
    pub fn first_day_of_month(year: i32, month: u32) -> (r: Date)
        requires
            MIN_YEAR <= year <= MAX_YEAR,
            1 <= month <= 12,
        ensures
            r@ == ymd(year as int, month as int, 1),
    {
        match Date::from_ymd_opt(year, month, 1) {
            Some(first) => first,
            None => Date::earliest(),
        }
    }

    /// The last day of the given month: the day before the first day of the
    /// month that follows.
    pub fn last_day_of_month(year: i32, month: u32) -> (r: Date)
        requires
            MIN_YEAR <= year <= MAX_YEAR,
            1 <= month <= 12,
        ensures
            r@ == ymd(year as int, month as int, days_in_month(year as int, month as int)),
    {
        let next_year: i32 = if month == 12 { year + 1 } else { year };
        let next_month: u32 = if month == 12 { 1 } else { month + 1 };
        let ghost last = Date { year, month, day: days_in_month(year as int, month as int) as u32 };
        match Date::from_ymd_opt(next_year, next_month, 1) {
            Some(first_of_next) => {
                proof {
                    lemma_days_before_month(year as int);
                    lemma_days_before_next_year(year as int);
                    assert(days_before_month(year as int, month as int + 1) == days_before_month(
                        year as int,
                        month as int,
                    ) + days_in_month(year as int, month as int));
                    lemma_plus_days_is(first_of_next@, -1, last);
                }
                match first_of_next.pred_opt() {
                    Some(before) => before,
                    None => first_of_next,
                }
            },
            None => Date::latest(),
        }
    }

    /// The number of days from the last day of year 0 to this day: January 1
    /// of year 1 is day 1.
    pub fn num_days_from_ce(&self) -> (n: i32)
        ensures
            n == self@.day_number(),
    {
        proof {
            use_type_invariant(self);
            lemma_days_before_month(self@.year);
        }
        let y: i64 = self.year as i64 - 1;
        let leap: bool = self.year % 4 == 0 && (self.year % 100 != 0 || self.year % 400 == 0);
        let february: i64 = if leap { 29 } else { 28 };
        let before_month: i64 = if self.month == 1 {
            0
        } else if self.month == 2 {
            31
        } else if self.month == 3 {
            31 + february
        } else if self.month == 4 {
            62 + february
        } else if self.month == 5 {
            92 + february
        } else if self.month == 6 {
            123 + february
        } else if self.month == 7 {
            153 + february
        } else if self.month == 8 {
            184 + february
        } else if self.month == 9 {
            215 + february
        } else if self.month == 10 {
            245 + february
        } else if self.month == 11 {
            276 + february
        } else {
            306 + february
        };
        let n: i64 = 365 * y + floor_div(y, 4) - floor_div(y, 100) + floor_div(y, 400)
            + before_month + self.day as i64;
        n as i32
    }

    /// The year.
    pub fn year(&self) -> (y: i32)
        ensures
            y == self@.year,
            MIN_YEAR <= y <= MAX_YEAR,
    {
        proof {
            use_type_invariant(self);
        }
        self.year
    }

    /// The month, from 1 to 12.
    pub fn month(&self) -> (m: u32)
        ensures
            m == self@.month,
            1 <= m <= 12,
    {
        proof {
            use_type_invariant(self);
        }
        self.month
    }

    /// The day of the month, from 1.
    pub fn day(&self) -> (d: u32)
        ensures
            d == self@.day,
            1 <= d <= 31,
    {
        proof {
            use_type_invariant(self);
        }
        self.day
    }
}

/// The quotient of `a` by `b`, rounded towards negative infinity.
fn floor_div(a: i64, b: i64) -> (q: i64)
    requires
        0 < b <= 1000,
        -1_000_000_000 <= a <= 1_000_000_000,
    ensures
        q == a as int / b as int,
{
    if a >= 0 {
        a / b
    } else {
        let up: i64 = (b - 1 - a) / b;
        assert(-(up as int) == a as int / b as int) by (nonlinear_arith)
            requires
                a < 0,
                0 < b,
                up == (b - 1 - a) / (b as int),
        ;
        -up
    }
}

/// Reads an RFC 3339 date and time, such as `2025-06-15T10:30:00-05:00`, and
/// returns its day and time of day in the offset that the text gives.
pub fn parse_rfc3339(text: &str) -> (r: Option<LocalDateTime>)
    ensures
        match r {
            Some(t) => {
                &&& rfc3339_local_fields(text@) == Some(
                    (t.date@.year, t.date@.month, t.date@.day, t.hour as int, t.minute as int),
                )
                &&& t.hour < 24
                &&& t.minute < 60
            },
            None => rfc3339_local_fields(text@) is None,
        },
{
    match chrono_parse_rfc3339(text) {
        Some(t) => Some(
            LocalDateTime { date: Date { year: t.0, month: t.1, day: t.2 }, hour: t.3, minute: t.4 },
        ),
        None => None,
    }
}

/// Reads a day written as year, month and day, such as `2025-06-15`.
pub fn parse_ymd(text: &str) -> (r: Option<Date>)
    ensures
        match r {
            Some(d) => ymd_text_day(text@) == Some(d@),
            None => ymd_text_day(text@) is None,
        },
{
    match chrono_parse_ymd(text) {
        Some(t) => Some(Date { year: t.0, month: t.1, day: t.2 }),
        None => None,
    }
}

/// The months of one year add up to the length of the year, and each month
/// begins where the one before it ends.
pub proof fn lemma_days_before_month(y: int)
    ensures
        days_before_month(y, 1) == 0,
        days_before_month(y, 2) == 31,
        days_before_month(y, 3) == 31 + days_in_month(y, 2),
        days_before_month(y, 4) == 62 + days_in_month(y, 2),
        days_before_month(y, 5) == 92 + days_in_month(y, 2),
        days_before_month(y, 6) == 123 + days_in_month(y, 2),
        days_before_month(y, 7) == 153 + days_in_month(y, 2),
        days_before_month(y, 8) == 184 + days_in_month(y, 2),
        days_before_month(y, 9) == 215 + days_in_month(y, 2),
        days_before_month(y, 10) == 245 + days_in_month(y, 2),
        days_before_month(y, 11) == 276 + days_in_month(y, 2),
        days_before_month(y, 12) == 306 + days_in_month(y, 2),
        days_before_month(y, 13) == days_in_year(y),
{
    reveal_with_fuel(days_before_month, 14);
}

/// A year begins where the year before it ends.
pub proof fn lemma_days_before_next_year(y: int)
    ensures
        days_before_year(y + 1) == days_before_year(y) + days_in_year(y),
{
    let by_4: int = if y % 4 == 0 { 1 } else { 0 };
    let by_100: int = if y % 100 == 0 { 1 } else { 0 };
    let by_400: int = if y % 400 == 0 { 1 } else { 0 };
    assert(y / 4 - (y - 1) / 4 == by_4);
    assert(y / 100 - (y - 1) / 100 == by_100);
    assert(y / 400 - (y - 1) / 400 == by_400);
    assert(y % 100 == 0 ==> y % 4 == 0);
    assert(y % 400 == 0 ==> y % 100 == 0);
    assert(days_in_year(y) == 365 + by_4 - by_100 + by_400);
}

/// The years between two years hold at least as many days as the first of
/// them.
pub proof fn lemma_days_before_year_grows(y1: int, y2: int)
    requires
        y1 < y2,
    ensures
        days_before_year(y1) + days_in_year(y1) <= days_before_year(y2),
    decreases y2 - y1,
{
    lemma_days_before_next_year(y1);
    if y1 + 1 < y2 {
        lemma_days_before_year_grows(y1 + 1, y2);
    }
}

/// A later day of the calendar has a greater day number.
pub proof fn lemma_day_number_increases(a: Ymd, b: Ymd)
    requires
        a.valid(),
        b.valid(),
        a.lt(b),
    ensures
        a.day_number() < b.day_number(),
{
    lemma_days_before_month(a.year);
    lemma_days_before_month(b.year);
    if a.year < b.year {
        lemma_days_before_year_grows(a.year, b.year);
    }
}

/// Two days of the calendar with one day number are the same day.
pub proof fn lemma_day_number_injective(a: Ymd, b: Ymd)
    requires
        a.valid(),
        b.valid(),
        a.day_number() == b.day_number(),
    ensures
        a == b,
{
    if a.lt(b) {
        lemma_day_number_increases(a, b);
    } else if b.lt(a) {
        lemma_day_number_increases(b, a);
    }
}

/// Calendar order is the order of the day numbers.
pub proof fn lemma_order_is_day_number_order(a: Ymd, b: Ymd)
    requires
        a.valid(),
        b.valid(),
    ensures
        a.lt(b) <==> a.day_number() < b.day_number(),
        a.le(b) <==> a.day_number() <= b.day_number(),
{
    if a.lt(b) {
        lemma_day_number_increases(a, b);
    } else if b.lt(a) {
        lemma_day_number_increases(b, a);
    }
}

/// Every day of the calendar has its day number between the day numbers of
/// the first and the last day.
pub proof fn lemma_day_number_in_range(a: Ymd)
    requires
        a.valid(),
    ensures
        min_day_number() <= a.day_number() <= max_day_number(),
{
    let first = ymd(MIN_YEAR as int, 1, 1);
    let last = ymd(MAX_YEAR as int, 12, 31);
    lemma_order_is_day_number_order(first, a);
    lemma_order_is_day_number_order(a, last);
}

/// Every position between the first and the last day number is the day
/// number of a day of the calendar.
pub proof fn lemma_day_number_dense(n: int)
    requires
        min_day_number() <= n <= max_day_number(),
    ensures
        exists|d: Date| d@.valid() && d@.day_number() == n,
{
    lemma_days_before_month(MIN_YEAR as int);
    lemma_days_before_month(MAX_YEAR as int);
    let y = year_of_day_number(n, MIN_YEAR as int, MAX_YEAR as int);
    lemma_days_before_month(y);
    let m = month_of_day_number(y, n - days_before_year(y), 12);
    let day = n - days_before_year(y) - days_before_month(y, m);
    let d = Date {
        year: y as i32,
        month: m as u32,
        day: day as u32,
    };
    assert(d@ == ymd(y, m, day));
    assert(d@.valid() && d@.day_number() == n);
}

/// The year that holds day number `n`, searched from `hi` downwards.
proof fn year_of_day_number(n: int, lo: int, hi: int) -> (y: int)
    requires
        lo <= hi,
        days_before_year(lo) < n,
        n <= days_before_year(hi) + days_in_year(hi),
    ensures
        lo <= y <= hi,
        days_before_year(y) < n <= days_before_year(y) + days_in_year(y),
    decreases hi - lo,
{
    if days_before_year(hi) < n {
        hi
    } else {
        lemma_days_before_next_year(hi - 1);
        year_of_day_number(n, lo, hi - 1)
    }
}

/// The month of year `y` that holds the day with ordinal `o`, searched from
/// month `hi` downwards.
proof fn month_of_day_number(y: int, o: int, hi: int) -> (m: int)
    requires
        1 <= hi <= 12,
        1 <= o <= days_before_month(y, hi) + days_in_month(y, hi),
    ensures
        1 <= m <= hi,
        days_before_month(y, m) < o <= days_before_month(y, m) + days_in_month(y, m),
    decreases hi,
{
    if days_before_month(y, hi) < o {
        hi
    } else {
        assert(hi > 1);
        month_of_day_number(y, o, hi - 1)
    }
}

/// Two dates with one model are the same date.
pub proof fn lemma_view_injective(a: Date, b: Date)
    requires
        a@ == b@,
    ensures
        a == b,
{
}

/// A date whose day number is `days` more than that of `a` is the day that
/// `plus_days` names.
pub proof fn lemma_plus_days_is(a: Ymd, days: int, b: Date)
    requires
        b@.valid(),
        b@.day_number() == a.day_number() + days,
    ensures
        a.plus_days(days) == Some(b),
{
    let target = a.day_number() + days;
    lemma_day_number_in_range(b@);
    let chosen = choose|d: Date| d@.valid() && d@.day_number() == target;
    lemma_day_number_injective(b@, chosen@);
    lemma_view_injective(b, chosen);
}

/// What `plus_days` names is a day of the calendar, `days` days further.
pub proof fn lemma_plus_days_some(a: Ymd, days: int)
    requires
        a.plus_days(days) is Some,
    ensures
        a.plus_days(days).unwrap()@.valid(),
        a.plus_days(days).unwrap()@.day_number() == a.day_number() + days,
{
    let target = a.day_number() + days;
    lemma_day_number_dense(target);
}

/// Moving by `days` and then back by `days` leads to the day of the start.
pub proof fn lemma_plus_days_back(a: Date, days: int)
    requires
        a@.valid(),
        a@.plus_days(days) is Some,
    ensures
        a@.plus_days(days).unwrap()@.plus_days(-days) == Some(a),
{
    lemma_plus_days_some(a@, days);
    lemma_plus_days_is(a@.plus_days(days).unwrap()@, -days, a);
}

} // verus!
