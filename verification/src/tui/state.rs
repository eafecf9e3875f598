//! The state of the application: the selected day, the focus, the selection
//! in the list of events, and the cache of the events that were fetched.

use crate::calendar::models::{Calendar, Event};
use crate::date::{days_in_month, ymd, Date, Ymd, MAX_YEAR, MIN_YEAR};
use crate::text::str_equal;
use vstd::prelude::*;

verus! {

/// The number of months on each side of the centre month of a fetch window.
pub const FETCH_MONTHS: u32 = 2;

/// The number of months on each side of the selected month whose events stay
/// in the cache.
pub const RETENTION_MONTHS: u32 = 6;

/// The pane that gets the keys that are not global.
#[derive(Debug, Clone, Copy, PartialEq, Eq, Structural)]
pub enum ViewFocus {
    Calendar,
    Events,
}

/// What the pane of events shows: the list of the events of the selected
/// day, or the details of one of them.
#[derive(Debug, Clone, Copy, PartialEq, Eq, Structural)]
pub enum EventsViewMode {
    List,
    Details { event_index: usize },
}

/// A range of days, both ends included.
#[derive(Debug, Clone, Copy, PartialEq, Eq, Structural)]
pub struct DateRange {
    pub start: Date,
    pub end: Date,
}

/// The first day of the month with index `mi` (see `Ymd::month_index`), or
/// the first day of the calendar where that month lies before it.
pub open spec fn window_start(mi: int) -> Ymd {
    if mi < MIN_YEAR * 12 {
        ymd(MIN_YEAR as int, 1, 1)
    } else {
        ymd(mi / 12, mi % 12 + 1, 1)
    }
}

/// The last day of the month with index `mi`, or the last day of the
/// calendar where that month lies after it.
pub open spec fn window_end(mi: int) -> Ymd {
    if mi > MAX_YEAR * 12 + 11 {
        ymd(MAX_YEAR as int, 12, 31)
    } else {
        ymd(mi / 12, mi % 12 + 1, days_in_month(mi / 12, mi % 12 + 1))
    }
}

impl DateRange {
    /// Whether day `d` lies in the range.
    pub open spec fn contains(self, d: Ymd) -> bool {
        self.start@.le(d) && d.le(self.end@)
    }

    /// The range is the span of whole months from `months` months before the
    /// month of `center` to `months` months after it, cut off at the ends of
    /// the calendar.
    pub open spec fn is_month_span(self, center: Ymd, months: int) -> bool {
        &&& self.start@ == window_start(center.month_index() - months)
        &&& self.end@ == window_end(center.month_index() + months)
    }

    /// The span of whole months around the month of `center`, `months` months
    /// to each side.
    pub fn month_span(center: Date, months: u32) -> (r: DateRange)
        ensures
            r.is_month_span(center@, months as int),
    {
        let index: i64 = center.year() as i64 * 12 + (center.month() as i64 - 1);
        let low: i64 = index - months as i64;
        let high: i64 = index + months as i64;
        let start = if low < MIN_YEAR as i64 * 12 {
            Date::earliest()
        } else {
            // Count the months from January of the first year.
            let shifted: i64 = low - MIN_YEAR as i64 * 12;
            let year: i64 = shifted / 12 + MIN_YEAR as i64;
            let month: i64 = shifted % 12 + 1;
            Date::first_day_of_month(year as i32, month as u32)
        };
        let end = if high > MAX_YEAR as i64 * 12 + 11 {
            Date::latest()
        } else {
            let shifted: i64 = high - MIN_YEAR as i64 * 12;
            let year: i64 = shifted / 12 + MIN_YEAR as i64;
            let month: i64 = shifted % 12 + 1;
            DateRange::last_day_of_month(year as i32, month as u32)
        };
        DateRange { start, end }
    }

    /// The window of five months that is fetched around `center_date`: from
    /// the first day of the month two months before it to the last day of the
    /// month two months after it.
    pub fn five_month_span(center_date: Date) -> (r: DateRange)
        ensures
            r.is_month_span(center_date@, 2),
    {
        DateRange::month_span(center_date, FETCH_MONTHS)
    }

    /// The window of months whose events stay cached while `center_date` is
    /// selected.
    pub fn retention_span(center_date: Date) -> (r: DateRange)
        ensures
            r.is_month_span(center_date@, RETENTION_MONTHS as int),
    {
        DateRange::month_span(center_date, RETENTION_MONTHS)
    }

    /// The last day of the given month.
    pub fn last_day_of_month(year: i32, month: u32) -> (r: Date)
        requires
            MIN_YEAR <= year <= MAX_YEAR,
            1 <= month <= 12,
        ensures
            r@ == ymd(year as int, month as int, days_in_month(year as int, month as int)),
    {
        Date::last_day_of_month(year, month)
    }

    /// Whether `date` lies in the range.
    pub fn includes(&self, date: &Date) -> (b: bool)
        ensures
            b == self.contains(date@),
    {
        self.start.is_on_or_before(date) && date.is_on_or_before(&self.end)
    }
}

/// Where a month begins and ends: its first day is a day of the calendar
/// unless the month lies after the calendar, its last day unless the month
/// lies before it; a month of the calendar holds both.
pub proof fn lemma_window_bounds(mi: int)
    ensures
        mi <= MAX_YEAR * 12 + 11 ==> window_start(mi).valid(),
        MIN_YEAR * 12 <= mi ==> window_end(mi).valid(),
        MIN_YEAR * 12 <= mi <= MAX_YEAR * 12 + 11 ==> {
            &&& window_start(mi).month_index() == mi
            &&& window_end(mi).month_index() == mi
            &&& window_start(mi).le(window_end(mi))
        },
{
}

/// A later month begins no earlier than an earlier one.
pub proof fn lemma_window_start_ordered(earlier: int, later: int)
    requires
        earlier <= later <= MAX_YEAR * 12 + 11,
    ensures
        window_start(earlier).le(window_start(later)),
{
    lemma_window_bounds(earlier);
    lemma_window_bounds(later);
}

/// A later month ends no earlier than an earlier one.
pub proof fn lemma_window_end_ordered(earlier: int, later: int)
    requires
        MIN_YEAR * 12 <= earlier <= later,
    ensures
        window_end(earlier).le(window_end(later)),
{
    lemma_window_bounds(earlier);
    lemma_window_bounds(later);
}

/// A day lies between the first day and the last day of its month.
pub proof fn lemma_day_within_its_month(d: Ymd)
    requires
        d.valid(),
    ensures
        window_start(d.month_index()).le(d),
        d.le(window_end(d.month_index())),
{
}

/// Calendar order is transitive.
pub proof fn lemma_le_transitive(a: Ymd, b: Ymd, c: Ymd)
    requires
        a.le(b),
        b.le(c),
    ensures
        a.le(c),
{
}

/// A span of months around a day holds every day of the month of that day,
/// and so the day itself.
pub proof fn lemma_span_holds_center_month(range: DateRange, center: Ymd, months: nat, d: Ymd)
    requires
        center.valid(),
        d.valid(),
        d.month_index() == center.month_index(),
        range.is_month_span(center, months as int),
    ensures
        range.contains(d),
{
    let mi = center.month_index();
    lemma_day_within_its_month(d);
    lemma_window_start_ordered(mi - months, mi);
    lemma_window_end_ordered(mi, mi + months);
    lemma_le_transitive(window_start(mi - months), window_start(mi), d);
    lemma_le_transitive(d, window_end(mi), window_end(mi + months));
}

/// A span of months around a day lies within every wider span around the
/// same day.
pub proof fn lemma_wider_span_holds_narrower(
    narrow: DateRange,
    wide: DateRange,
    center: Ymd,
    fewer: nat,
    more: nat,
    d: Ymd,
)
    requires
        center.valid(),
        fewer <= more,
        narrow.is_month_span(center, fewer as int),
        wide.is_month_span(center, more as int),
        narrow.contains(d),
    ensures
        wide.contains(d),
{
    let mi = center.month_index();
    lemma_window_start_ordered(mi - more, mi - fewer);
    lemma_window_end_ordered(mi + fewer, mi + more);
    lemma_le_transitive(window_start(mi - more), window_start(mi - fewer), d);
    lemma_le_transitive(d, window_end(mi + fewer), window_end(mi + more));
}

/// The events of one day.
#[derive(Debug)]
struct DayEvents {
    date: Date,
    events: Vec<Event>,
}

/// Whether one of the entries is for day `d`.
spec fn has_date(days: Seq<DayEvents>, d: Date) -> bool {
    exists|i: int| 0 <= i < days.len() && #[trigger] days[i].date == d
}

/// The place of the entry for day `d`.
spec fn position(days: Seq<DayEvents>, d: Date) -> int {
    choose|i: int| 0 <= i < days.len() && #[trigger] days[i].date == d
}

/// No two entries are for one day.
spec fn distinct_dates(days: Seq<DayEvents>) -> bool {
    forall|i: int, j: int| 0 <= i < j < days.len() ==> #[trigger] days[i].date != #[trigger] days[j].date
}

/// The map from each day of the entries to its events.
spec fn as_map(days: Seq<DayEvents>) -> Map<Date, Seq<Event>> {
    Map::new(|d: Date| has_date(days, d), |d: Date| days[position(days, d)].events@)
}

/// Each entry is found in the map under its day.
proof fn lemma_as_map_entry(days: Seq<DayEvents>, i: int)
    requires
        distinct_dates(days),
        0 <= i < days.len(),
    ensures
        as_map(days).dom().contains(days[i].date),
        as_map(days)[days[i].date] == days[i].events@,
        position(days, days[i].date) == i,
{
    let d = days[i].date;
    let p = position(days, d);
    assert(0 <= p < days.len() && days[p].date == d);
    if p < i {
        assert(days[p].date != days[i].date);
    } else if i < p {
        assert(days[i].date != days[p].date);
    }
}

/// With one more entry for a new day, the map has one more key.
proof fn lemma_as_map_push(days: Seq<DayEvents>, entry: DayEvents)
    requires
        distinct_dates(days),
        !has_date(days, entry.date),
    ensures
        distinct_dates(days.push(entry)),
        as_map(days.push(entry)) == as_map(days).insert(entry.date, entry.events@),
{
    let more = days.push(entry);
    assert forall|i: int, j: int| 0 <= i < j < more.len() implies #[trigger] more[i].date
        != #[trigger] more[j].date by {
        if j == days.len() {
            assert(more[i] == days[i]);
            assert(days[i].date != entry.date);
        } else {
            assert(more[i] == days[i] && more[j] == days[j]);
        }
    }
    assert forall|d: Date| has_date(more, d) <==> (has_date(days, d) || d == entry.date) by {
        if has_date(more, d) {
            let i = position(more, d);
            if i < days.len() {
                assert(days[i].date == d);
            }
        }
        if has_date(days, d) {
            let i = position(days, d);
            assert(more[i].date == d);
        }
        if d == entry.date {
            assert(more[days.len() as int].date == d);
        }
    }
    assert forall|d: Date| has_date(more, d) implies #[trigger] as_map(more)[d] == as_map(
        days,
    ).insert(entry.date, entry.events@)[d] by {
        let i = position(more, d);
        lemma_as_map_entry(more, i);
        if i < days.len() {
            assert(more[i] == days[i]);
            lemma_as_map_entry(days, i);
        }
    }
    assert(as_map(more) =~= as_map(days).insert(entry.date, entry.events@));
}

/// Without one entry, the map is without the key of that entry.
proof fn lemma_as_map_remove(days: Seq<DayEvents>, i: int)
    requires
        distinct_dates(days),
        0 <= i < days.len(),
    ensures
        distinct_dates(days.remove(i)),
        !has_date(days.remove(i), days[i].date),
        as_map(days.remove(i)) == as_map(days).remove(days[i].date),
{
    let less = days.remove(i);
    let gone = days[i].date;
    assert forall|a: int| 0 <= a < less.len() implies #[trigger] less[a] == days[if a < i {
        a
    } else {
        a + 1
    }] by {}
    assert forall|a: int, b: int| 0 <= a < b < less.len() implies #[trigger] less[a].date
        != #[trigger] less[b].date by {
        let a2 = if a < i { a } else { a + 1 };
        let b2 = if b < i { b } else { b + 1 };
        assert(less[a] == days[a2] && less[b] == days[b2]);
        assert(days[a2].date != days[b2].date);
    }
    assert(!has_date(less, gone)) by {
        if has_date(less, gone) {
            let a = position(less, gone);
            let a2 = if a < i { a } else { a + 1 };
            assert(less[a] == days[a2]);
            if a2 < i {
                assert(days[a2].date != days[i].date);
            } else {
                assert(days[i].date != days[a2].date);
            }
        }
    }
    assert forall|d: Date| has_date(less, d) <==> (has_date(days, d) && d != gone) by {
        if has_date(less, d) {
            let a = position(less, d);
            let a2 = if a < i { a } else { a + 1 };
            assert(less[a] == days[a2]);
            assert(days[a2].date == d);
        }
        if has_date(days, d) && d != gone {
            let k = position(days, d);
            let k2 = if k < i { k } else { k - 1 };
            assert(less[k2] == days[k]);
            assert(less[k2].date == d);
        }
    }
    assert forall|d: Date| has_date(less, d) implies #[trigger] as_map(less)[d] == as_map(
        days,
    ).remove(gone)[d] by {
        let a = position(less, d);
        let a2 = if a < i { a } else { a + 1 };
        assert(less[a] == days[a2]);
        lemma_as_map_entry(less, a);
        lemma_as_map_entry(days, a2);
    }
    assert(as_map(less) =~= as_map(days).remove(gone));
}

/// The map of the entries has as many keys as there are entries.
proof fn lemma_as_map_len(days: Seq<DayEvents>)
    requires
        distinct_dates(days),
    ensures
        as_map(days).dom().finite(),
        as_map(days).dom().len() == days.len(),
    decreases days.len(),
{
    if days.len() == 0 {
        assert(as_map(days).dom() =~= Set::<Date>::empty());
    } else {
        let front = days.drop_last();
        let last = days.last();
        assert(distinct_dates(front)) by {
            assert forall|i: int, j: int| 0 <= i < j < front.len() implies #[trigger] front[i].date
                != #[trigger] front[j].date by {
                assert(front[i] == days[i] && front[j] == days[j]);
            }
        }
        assert(!has_date(front, last.date)) by {
            if has_date(front, last.date) {
                let i = position(front, last.date);
                assert(front[i] == days[i]);
                assert(days[i].date != days[days.len() - 1].date);
            }
        }
        lemma_as_map_len(front);
        lemma_as_map_push(front, last);
        assert(front.push(last) =~= days);
    }
}

/// The events that were fetched, by the day on which each begins. The events
/// of one day stand in the order in which they were put in.
#[derive(Debug)]
pub struct EventIndex {
    days: Vec<DayEvents>,
}

impl View for EventIndex {
    type V = Map<Date, Seq<Event>>;

    closed spec fn view(&self) -> Map<Date, Seq<Event>> {
        as_map(self.days@)
    }
}

impl EventIndex {
    #[verifier::type_invariant]
    spec fn inv(self) -> bool {
        distinct_dates(self.days@)
    }

    /// The events of day `d`: none where the index has no entry for it.
    pub open spec fn events_on(self, d: Date) -> Seq<Event> {
        if self@.dom().contains(d) {
            self@[d]
        } else {
            Seq::empty()
        }
    }

    /// An index without entries.
    pub fn new() -> (r: EventIndex)
        ensures
            r@ == Map::<Date, Seq<Event>>::empty(),
    {
        let r = EventIndex { days: Vec::new() };
        assert(r@ =~= Map::<Date, Seq<Event>>::empty());
        r
    }

    /// The number of days that have an entry.
    pub fn len(&self) -> (n: usize)
        ensures
            self@.dom().finite(),
            n == self@.dom().len(),
    {
        proof {
            use_type_invariant(self);
            lemma_as_map_len(self.days@);
        }
        self.days.len()
    }

    /// Whether no day has an entry.
    pub fn is_empty(&self) -> (b: bool)
        ensures
            b == (self@ == Map::<Date, Seq<Event>>::empty()),
    {
        proof {
            use_type_invariant(self);
            lemma_as_map_len(self.days@);
            if self.days@.len() == 0 {
                assert(self@ =~= Map::<Date, Seq<Event>>::empty());
            }
        }
        self.days.len() == 0
    }

    /// The place of the entry for `date`.
    fn find(&self, date: &Date) -> (r: Option<usize>)
        ensures
            match r {
                Some(i) => i < self.days@.len() && self.days@[i as int].date == *date,
                None => !has_date(self.days@, *date),
            },
    {
        let mut i: usize = 0;
        while i < self.days.len()
            invariant
                i <= self.days@.len(),
                forall|k: int| 0 <= k < i ==> (#[trigger] self.days@[k]).date != *date,
            decreases self.days@.len() - i,
        {
            if self.days[i].date == *date {
                return Some(i);
            }
            i += 1;
        }
        None
    }

    /// Whether `date` has an entry.
    pub fn contains_key(&self, date: &Date) -> (b: bool)
        ensures
            b == self@.dom().contains(*date),
    {
        self.find(date).is_some()
    }

    /// The events of `date`, if it has an entry.
    pub fn get(&self, date: &Date) -> (r: Option<&Vec<Event>>)
        ensures
            match r {
                Some(events) => self@.dom().contains(*date) && events@ == self@[*date],
                None => !self@.dom().contains(*date),
            },
    {
        proof {
            use_type_invariant(self);
        }
        match self.find(date) {
            Some(i) => {
                proof {
                    lemma_as_map_entry(self.days@, i as int);
                }
                Some(&self.days[i].events)
            },
            None => None,
        }
    }

    /// Puts `events` under `date`, in place of what was there, and returns
    /// what was there.
    pub fn insert(&mut self, date: Date, events: Vec<Event>) -> (r: Option<Vec<Event>>)
        ensures
            final(self)@ == old(self)@.insert(date, events@),
            match r {
                Some(before) => old(self)@.dom().contains(date) && before@ == old(self)@[date],
                None => !old(self)@.dom().contains(date),
            },
    {
        proof {
            use_type_invariant(&*self);
        }
        let found = self.find(&date);
        let mut days: Vec<DayEvents> = Vec::new();
        core::mem::swap(&mut self.days, &mut days);
        let ghost before = days@;
        let r = match found {
            Some(i) => {
                proof {
                    lemma_as_map_entry(before, i as int);
                    lemma_as_map_remove(before, i as int);
                    lemma_as_map_push(before.remove(i as int), DayEvents { date, events });
                    assert(as_map(before.remove(i as int)).insert(date, events@) =~= as_map(
                        before,
                    ).insert(date, events@));
                }
                let removed = days.remove(i);
                days.push(DayEvents { date, events });
                Some(removed.events)
            },
            None => {
                proof {
                    lemma_as_map_push(before, DayEvents { date, events });
                }
                days.push(DayEvents { date, events });
                None
            },
        };
        self.days = days;
        r
    }

    /// Puts `event` behind the events that `date` already has.
    pub fn push_event(&mut self, date: Date, event: Event)
        ensures
            final(self)@ == old(self)@.insert(date, old(self).events_on(date).push(event)),
    {
        proof {
            use_type_invariant(&*self);
        }
        let found = self.find(&date);
        let mut days: Vec<DayEvents> = Vec::new();
        core::mem::swap(&mut self.days, &mut days);
        let ghost before = days@;
        match found {
            Some(i) => {
                let mut entry = days.remove(i);
                entry.events.push(event);
                proof {
                    lemma_as_map_entry(before, i as int);
                    lemma_as_map_remove(before, i as int);
                    lemma_as_map_push(before.remove(i as int), entry);
                    assert(as_map(before.remove(i as int)).insert(date, entry.events@) =~= as_map(
                        before,
                    ).insert(date, entry.events@));
                }
                days.push(entry);
            },
            None => {
                let mut events: Vec<Event> = Vec::new();
                events.push(event);
                proof {
                    lemma_as_map_push(before, DayEvents { date, events });
                    assert(events@ =~= Seq::<Event>::empty().push(event));
                }
                days.push(DayEvents { date, events });
            },
        }
        self.days = days;
    }

    /// Whether the entry of day `d` stays when the index is cut down to
    /// `window`: the day lies in the window, or in the month of `pinned`.
    pub open spec fn stays(window: DateRange, pinned: Option<Date>, d: Date) -> bool {
        window.contains(d@) || (pinned matches Some(p) && p@.month_index() == d@.month_index())
    }

    /// Removes the entry of every day that lies outside `window`, but for
    /// the days of the month of `pinned`.
    pub fn retain_near(&mut self, window: &DateRange, pinned: Option<Date>)
        ensures
            final(self)@ == old(self)@.restrict(
                Set::new(|d: Date| EventIndex::stays(*window, pinned, d)),
            ),
    {
        proof {
            use_type_invariant(&*self);
        }
        let mut days: Vec<DayEvents> = Vec::new();
        core::mem::swap(&mut self.days, &mut days);
        let ghost before = days@;
        let mut kept: Vec<DayEvents> = Vec::new();
        assert(as_map(kept@) =~= as_map(before).restrict(
            Set::new(|d: Date| EventIndex::stays(*window, pinned, d) && !has_date(days@, d)),
        ));
        while days.len() > 0
            invariant
                distinct_dates(before),
                distinct_dates(kept@),
                days@.len() <= before.len(),
                days@ == before.subrange(0, days@.len() as int),
                as_map(kept@) == as_map(before).restrict(
                    Set::new(
                        |d: Date| EventIndex::stays(*window, pinned, d) && !has_date(days@, d),
                    ),
                ),
            decreases days@.len(),
        {
            let ghost rest = days@;
            let ghost n = rest.len() as int;
            let ghost kept_before = kept@;
            proof {
                assert(rest[n - 1] == before[n - 1]);
                assert(distinct_dates(rest)) by {
                    assert forall|i: int, j: int| 0 <= i < j < rest.len() implies #[trigger] rest[i].date
                        != #[trigger] rest[j].date by {
                        assert(rest[i] == before[i] && rest[j] == before[j]);
                    }
                }
                lemma_as_map_remove(rest, n - 1);
                lemma_as_map_entry(before, n - 1);
                assert(rest.remove(n - 1) =~= before.subrange(0, n - 1));
            }
            let entry = days.pop().unwrap();
            let stays = window.includes(&entry.date) || match pinned {
                Some(p) => p.same_month(&entry.date),
                None => false,
            };
            proof {
                assert(has_date(rest, entry.date)) by {
                    assert(rest[n - 1].date == entry.date);
                }
                assert forall|d: Date| has_date(days@, d) <==> (has_date(rest, d) && d
                    != entry.date) by {
                    assert(as_map(days@).dom().contains(d) <==> as_map(rest).remove(
                        entry.date,
                    ).dom().contains(d));
                }
            }
            if stays {
                proof {
                    assert(!has_date(kept_before, entry.date)) by {
                        assert(!as_map(kept_before).dom().contains(entry.date));
                    }
                    lemma_as_map_push(kept_before, entry);
                }
                kept.push(entry);
            }
            assert(as_map(kept@) =~= as_map(before).restrict(
                Set::new(|d: Date| EventIndex::stays(*window, pinned, d) && !has_date(days@, d)),
            ));
        }
        assert(as_map(kept@) =~= as_map(before).restrict(
            Set::new(|d: Date| EventIndex::stays(*window, pinned, d)),
        ));
        self.days = kept;
    }
}

/// The first of the calendars `calendars` whose id is `id`.
pub open spec fn first_with_id(calendars: Seq<Calendar>, id: Seq<char>) -> Option<Calendar>
    decreases calendars.len(),
{
    if calendars.len() == 0 {
        None
    } else if calendars.first().id@ == id {
        Some(calendars.first())
    } else {
        first_with_id(calendars.drop_first(), id)
    }
}

/// The state of the application. It is owned by the loop that draws the
/// screen and reads the keys; nothing else changes it.
#[derive(Debug)]
pub struct AppState {
    /// The day that the calendar pane marks and whose events are listed.
    pub selected_date: Date,
    /// The day on which the state was made.
    pub today: Date,
    pub calendars: Vec<Calendar>,
    pub events: EventIndex,
    /// A fetch is under way.
    pub loading: bool,
    /// What the last fetch failed with.
    pub error: Option<String>,
    pub view_focus: ViewFocus,
    /// The place, in the list of the events of the selected day, of the
    /// event that is marked.
    pub selected_event_index: Option<usize>,
    pub events_view_mode: EventsViewMode,
    /// How far the details of an event can be scrolled, as last drawn.
    pub event_details_max_scroll: usize,
    /// The day around which the fetch that is under way was started.
    pub pending_fetch: Option<Date>,
    /// The day around which the window of the events in `events` was
    /// fetched. Its month is never evicted.
    pub loaded_fetch: Option<Date>,
}

impl AppState {
    /// Whether the state is the one at the start, on day `today`: that day is
    /// selected, the calendar pane has the focus, nothing is loaded and a
    /// fetch is awaited.
    pub open spec fn is_initial(self, today: Date) -> bool {
        &&& self.selected_date == today
        &&& self.today == today
        &&& self.calendars@ == Seq::<Calendar>::empty()
        &&& self.events@ == Map::<Date, Seq<Event>>::empty()
        &&& self.loading
        &&& self.error is None
        &&& self.view_focus == ViewFocus::Calendar
        &&& self.selected_event_index is None
        &&& self.events_view_mode == EventsViewMode::List
        &&& self.event_details_max_scroll == 0
        &&& self.pending_fetch is None
        &&& self.loaded_fetch is None
    }

    /// The state at the start, with the current day of the machine as today.
    pub fn new() -> (r: AppState)
        ensures
            r.is_initial(r.today),
    {
        AppState::with_today(Date::today())
    }

    /// The state at the start, on day `today`.
    pub fn with_today(today: Date) -> (r: AppState)
        ensures
            r.is_initial(today),
    {
        AppState {
            selected_date: today,
            today,
            calendars: Vec::new(),
            events: EventIndex::new(),
            loading: true,
            error: None,
            view_focus: ViewFocus::Calendar,
            selected_event_index: None,
            events_view_mode: EventsViewMode::List,
            event_details_max_scroll: 0,
            pending_fetch: None,
            loaded_fetch: None,
        }
    }

    /// The events of the selected day.
    pub open spec fn selected_events(self) -> Seq<Event> {
        self.events.events_on(self.selected_date)
    }

    /// The events of `date`, in their order.
    pub fn get_events_for_date(&self, date: Date) -> (r: Vec<&Event>)
        ensures
            r@.len() == self.events.events_on(date).len(),
            forall|i: int| 0 <= i < r@.len() ==> *#[trigger] r@[i] == self.events.events_on(date)[i],
    {
        let mut out: Vec<&Event> = Vec::new();
        match self.events.get(&date) {
            Some(events) => {
                let mut i: usize = 0;
                while i < events.len()
                    invariant
                        i <= events@.len(),
                        out@.len() == i,
                        forall|k: int| 0 <= k < i ==> *#[trigger] out@[k] == events@[k],
                    decreases events@.len() - i,
                {
                    out.push(&events[i]);
                    i += 1;
                }
            },
            None => {},
        }
        out
    }

    /// The number of events of `date`.
    pub fn event_count(&self, date: Date) -> (n: usize)
        ensures
            n == self.events.events_on(date).len(),
    {
        match self.events.get(&date) {
            Some(events) => events.len(),
            None => 0,
        }
    }

    /// Whether `date` has an event.
    pub fn has_events(&self, date: Date) -> (b: bool)
        ensures
            b == (self.events.events_on(date).len() > 0),
    {
        self.event_count(date) > 0
    }

    /// The state with day `date` selected. Where that is another day than
    /// before, no event is selected any more and the list of events is
    /// shown: a selection does not outlive a change of the day.
    pub open spec fn with_selected_date(self, date: Date) -> AppState {
        if date == self.selected_date {
            self
        } else {
            AppState {
                selected_date: date,
                selected_event_index: None,
                events_view_mode: EventsViewMode::List,
                ..self
            }
        }
    }

    /// The state with the day selected that lies `days` days after the
    /// selected one; the same state where that day is out of range.
    pub open spec fn moved_by(self, days: int) -> AppState {
        match self.selected_date@.plus_days(days) {
            Some(date) => self.with_selected_date(date),
            None => self,
        }
    }

    /// Whenever the selected day changes, no event is selected after it and
    /// the list of events is shown; the day on which the state was made
    /// stays.
    pub proof fn lemma_date_change_clears_selection(self, date: Date)
        ensures
            self.with_selected_date(date).selected_date == date,
            self.with_selected_date(date).today == self.today,
            date != self.selected_date ==> {
                &&& self.with_selected_date(date).selected_event_index is None
                &&& self.with_selected_date(date).events_view_mode == EventsViewMode::List
            },
    {
    }

    /// Selects day `date`, and clears the selection in the list of events if
    /// that is another day than before.
    pub fn select_date(&mut self, date: Date)
        ensures
            *final(self) == old(self).with_selected_date(date),
    {
        if date != self.selected_date {
            self.selected_date = date;
            self.selected_event_index = None;
            self.events_view_mode = EventsViewMode::List;
        }
    }

    /// Moves the selected day by `days` days; it stays where the day so
    /// reached would be out of range.
    pub fn move_selected_date(&mut self, days: i64)
        ensures
            *final(self) == old(self).moved_by(days as int),
    {
        match self.selected_date.checked_add_days(days) {
            Some(moved) => {
                self.select_date(moved);
            },
            None => {},
        }
    }

    /// Moves the selected day seven days on.
    pub fn move_to_next_week(&mut self)
        ensures
            *final(self) == old(self).moved_by(7),
    {
        self.move_selected_date(7);
    }

    /// Moves the selected day seven days back.
    pub fn move_to_prev_week(&mut self)
        ensures
            *final(self) == old(self).moved_by(-7),
    {
        self.move_selected_date(-7);
    }

    /// Gives the focus to the other pane.
    pub fn toggle_focus(&mut self)
        ensures
            *final(self) == (AppState {
                view_focus: match old(self).view_focus {
                    ViewFocus::Calendar => ViewFocus::Events,
                    ViewFocus::Events => ViewFocus::Calendar,
                },
                ..*old(self)
            }),
    {
        self.view_focus = match self.view_focus {
            ViewFocus::Calendar => ViewFocus::Events,
            ViewFocus::Events => ViewFocus::Calendar,
        };
    }

    /// Selects the day on which the state was made.
    pub fn jump_to_today(&mut self)
        ensures
            *final(self) == old(self).with_selected_date(old(self).today),
    {
        let today = self.today;
        self.select_date(today);
    }

    /// The selection after one step down the list of `count` events: the
    /// first event where nothing was selected, else the next one, and the
    /// first one again after the last. With no events it stays as it is.
    pub open spec fn selection_after_down(selected: Option<usize>, count: int) -> Option<usize> {
        if count <= 0 {
            selected
        } else {
            match selected {
                None => Some(0),
                Some(index) => Some(((index + 1) % count) as usize),
            }
        }
    }

    /// The selection after one step up the list of `count` events: the last
    /// event where nothing was selected, else the one before, and the last
    /// one again before the first. With no events it stays as it is.
    pub open spec fn selection_after_up(selected: Option<usize>, count: int) -> Option<usize> {
        if count <= 0 {
            selected
        } else {
            match selected {
                None => Some((count - 1) as usize),
                Some(index) => Some(((index + count - 1) % count) as usize),
            }
        }
    }

    /// Marks the next event of the selected day.
    pub fn move_event_selection_down(&mut self)
        ensures
            *final(self) == (AppState {
                selected_event_index: AppState::selection_after_down(
                    old(self).selected_event_index,
                    old(self).selected_events().len() as int,
                ),
                ..*old(self)
            }),
            old(self).selected_events().len() > 0 ==> final(self).selected_event_index.unwrap()
                < old(self).selected_events().len(),
    {
        let event_count: usize = self.event_count(self.selected_date);
        if event_count == 0 {
            return ;
        }
        self.selected_event_index = Some(
            match self.selected_event_index {
                None => 0,
                Some(index) => {
                    assert((index % event_count + 1) % (event_count as int) == (index + 1) % (
                    event_count as int)) by (nonlinear_arith)
                        requires
                            event_count > 0,
                    ;
                    (index % event_count + 1) % event_count
                },
            },
        );
    }

    /// Marks the event before the marked one.
    pub fn move_event_selection_up(&mut self)
        ensures
            *final(self) == (AppState {
                selected_event_index: AppState::selection_after_up(
                    old(self).selected_event_index,
                    old(self).selected_events().len() as int,
                ),
                ..*old(self)
            }),
            old(self).selected_events().len() > 0 ==> final(self).selected_event_index.unwrap()
                < old(self).selected_events().len(),
    {
        let event_count: usize = self.event_count(self.selected_date);
        if event_count == 0 {
            return ;
        }
        self.selected_event_index = Some(
            match self.selected_event_index {
                None => event_count - 1,
                Some(index) => {
                    if index == 0 {
                        assert((0 + event_count - 1) % (event_count as int) == event_count - 1)
                            by {
                            vstd::arithmetic::div_mod::lemma_small_mod(
                                (event_count - 1) as nat,
                                event_count as nat,
                            );
                        }
                        event_count - 1
                    } else {
                        assert((index - 1) % (event_count as int) == (index + event_count - 1) % (
                        event_count as int)) by (nonlinear_arith)
                            requires
                                event_count > 0,
                                index >= 1,
                        ;
                        (index - 1) % event_count
                    }
                },
            },
        );
    }

    /// Clears the selection in the list of events and goes back to the list.
    pub fn reset_event_selection(&mut self)
        ensures
            *final(self) == (AppState {
                selected_event_index: None,
                events_view_mode: EventsViewMode::List,
                ..*old(self)
            }),
    {
        self.selected_event_index = None;
        self.events_view_mode = EventsViewMode::List;
    }

    /// Opens the details of the marked event; without a marked event nothing
    /// changes.
    pub fn select_event(&mut self)
        ensures
            *final(self) == (AppState {
                events_view_mode: match old(self).selected_event_index {
                    Some(index) => EventsViewMode::Details { event_index: index },
                    None => old(self).events_view_mode,
                },
                ..*old(self)
            }),
    {
        match self.selected_event_index {
            Some(index) => {
                self.events_view_mode = EventsViewMode::Details { event_index: index };
            },
            None => {},
        }
    }

    /// Goes back from the details of an event to the list.
    pub fn exit_event_details(&mut self)
        ensures
            *final(self) == (AppState { events_view_mode: EventsViewMode::List, ..*old(self) }),
    {
        self.events_view_mode = EventsViewMode::List;
    }

    /// Records how far the details of the event can be scrolled.
    pub fn update_event_details_max_scroll(&mut self, max_scroll: usize)
        ensures
            *final(self) == (AppState { event_details_max_scroll: max_scroll, ..*old(self) }),
    {
        self.event_details_max_scroll = max_scroll;
    }

    /// The first calendar with the given id.
    pub fn get_calendar_by_id(&self, calendar_id: &str) -> (r: Option<&Calendar>)
        ensures
            match r {
                Some(calendar) => first_with_id(self.calendars@, calendar_id@) == Some(*calendar),
                None => first_with_id(self.calendars@, calendar_id@) is None,
            },
    {
        let mut i: usize = 0;
        assert(self.calendars@.skip(0) =~= self.calendars@);
        while i < self.calendars.len()
            invariant
                i <= self.calendars@.len(),
                first_with_id(self.calendars@, calendar_id@) == first_with_id(
                    self.calendars@.skip(i as int),
                    calendar_id@,
                ),
            decreases self.calendars@.len() - i,
        {
            let ghost rest = self.calendars@.skip(i as int);
            proof {
                assert(rest.first() == self.calendars@[i as int]);
                assert(rest.drop_first() =~= self.calendars@.skip(i + 1));
            }
            if str_equal(self.calendars[i].id.as_str(), calendar_id) {
                return Some(&self.calendars[i]);
            }
            i += 1;
        }
        assert(self.calendars@.skip(i as int).len() == 0);
        None
    }

    /// Notes that a fetch around `reference` begins, and returns the window
    /// of days to fetch: the five months around the month of `reference`.
    pub fn begin_fetch(&mut self, reference: Date) -> (window: DateRange)
        ensures
            *final(self) == (AppState { pending_fetch: Some(reference), ..*old(self) }),
            window.is_month_span(reference@, FETCH_MONTHS as int),
    {
        self.pending_fetch = Some(reference);
        DateRange::five_month_span(reference)
    }

    /// Whether the selected day lies in the first or in the last month of
    /// the window that is loaded. Nothing loaded, nothing to refresh.
    pub open spec fn at_edge_of_loaded_window(self) -> bool {
        self.loaded_fetch matches Some(center) && {
            let selected = self.selected_date@.month_index();
            let first = window_start(center@.month_index() - FETCH_MONTHS);
            let last = window_end(center@.month_index() + FETCH_MONTHS);
            selected == first.month_index() || selected == last.month_index()
        }
    }

    /// Whether the user has reached the edge of what was fetched, so that a
    /// window around the selected day should be loaded.
    pub fn needs_refresh(&self) -> (b: bool)
        ensures
            b == self.at_edge_of_loaded_window(),
    {
        match self.loaded_fetch {
            Some(center) => {
                let window = DateRange::five_month_span(center);
                self.selected_date.same_month(&window.start) || self.selected_date.same_month(
                    &window.end,
                )
            },
            None => false,
        }
    }

    /// Whether day `d` lies in the retention window: the months from
    /// `RETENTION_MONTHS` before the selected month to as many after it.
    pub open spec fn in_retention_window(self, d: Date) -> bool {
        let selected = self.selected_date@.month_index();
        window_start(selected - RETENTION_MONTHS).le(d@) && d@.le(
            window_end(selected + RETENTION_MONTHS),
        )
    }

    /// Whether day `d` lies in the pinned month: the month of the day around
    /// which the loaded window was fetched.
    pub open spec fn in_pinned_month(self, d: Date) -> bool {
        self.loaded_fetch matches Some(center) && center@.month_index() == d@.month_index()
    }

    /// The days of the selected month lie in the retention window: their
    /// events are not evicted.
    pub proof fn lemma_selected_month_is_retained(self, d: Date)
        requires
            self.selected_date@.valid(),
            d@.valid(),
            d@.month_index() == self.selected_date@.month_index(),
        ensures
            self.in_retention_window(d),
    {
        let mi = self.selected_date@.month_index();
        lemma_day_within_its_month(d@);
        lemma_window_start_ordered(mi - RETENTION_MONTHS, mi);
        lemma_window_end_ordered(mi, mi + RETENTION_MONTHS);
        lemma_le_transitive(window_start(mi - RETENTION_MONTHS), window_start(mi), d@);
        lemma_le_transitive(d@, window_end(mi), window_end(mi + RETENTION_MONTHS));
    }

    /// Evicts from the cache the events of every day outside the retention
    /// window, but for the days of the pinned month.
    pub fn trim_to_retention_window(&mut self)
        ensures
            final(self).events@ == old(self).events@.restrict(
                Set::new(|d: Date| old(self).in_retention_window(d) || old(self).in_pinned_month(d)),
            ),
            forall|d: Date| #[trigger]
                final(self).events@.dom().contains(d) ==> final(self).in_retention_window(d)
                    || final(self).in_pinned_month(d),
            forall|d: Date|
                old(self).in_pinned_month(d) && #[trigger] old(self).events@.dom().contains(d)
                    ==> final(self).events@.dom().contains(d) && final(self).events@[d] == old(
                    self,
                ).events@[d],
            final(self).selected_date == old(self).selected_date,
            final(self).today == old(self).today,
            final(self).calendars == old(self).calendars,
            final(self).loading == old(self).loading,
            final(self).error == old(self).error,
            final(self).view_focus == old(self).view_focus,
            final(self).selected_event_index == old(self).selected_event_index,
            final(self).events_view_mode == old(self).events_view_mode,
            final(self).event_details_max_scroll == old(self).event_details_max_scroll,
            final(self).pending_fetch == old(self).pending_fetch,
            final(self).loaded_fetch == old(self).loaded_fetch,
    {
        let window = DateRange::retention_span(self.selected_date);
        let ghost before = self.events@;
        self.events.retain_near(&window, self.loaded_fetch);
        assert(self.events@ =~= before.restrict(
            Set::new(|d: Date| old(self).in_retention_window(d) || old(self).in_pinned_month(d)),
        ));
    }
}

} // verus!
