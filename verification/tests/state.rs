use calendar_tui::calendar::models::{Calendar, Event, EventDateTime};
use calendar_tui::date::Date;
use calendar_tui::tui::state::{AppState, DateRange, EventIndex, EventsViewMode, ViewFocus};
use chrono::{Datelike, Local};

fn day(year: i32, month: u32, day: u32) -> Date {
    Date::from_ymd_opt(year, month, day).unwrap()
}

fn local_today() -> Date {
    let now = Local::now().date_naive();
    day(now.year(), now.month(), now.day())
}

fn timed_event(id: &str, title: &str, start: &str, end: &str) -> Event {
    Event {
        id: id.to_string(),
        summary: Some(title.to_string()),
        description: None,
        location: None,
        start: EventDateTime { date_time: Some(start.to_string()), date: None, time_zone: None },
        end: EventDateTime { date_time: Some(end.to_string()), date: None, time_zone: None },
        status: None,
        html_link: None,
        attendees: None,
        calendar_id: None,
    }
}

#[test]
fn test_app_state_new() {
    let state = AppState::new();

    assert_eq!(state.selected_date, local_today());
    assert_eq!(state.calendars.len(), 0);
    assert_eq!(state.events.len(), 0);
    assert!(state.loading);
    assert_eq!(state.error, None);
    assert_eq!(state.view_focus, ViewFocus::Calendar);
}

#[test]
fn test_move_selected_date() {
    let mut state = AppState::new();
    let initial_date = day(2025, 6, 15);
    state.selected_date = initial_date;

    state.move_selected_date(1);
    assert_eq!(state.selected_date, day(2025, 6, 16));

    state.move_selected_date(-3);
    assert_eq!(state.selected_date, day(2025, 6, 13));
}

#[test]
fn test_move_week() {
    let mut state = AppState::new();
    let initial_date = day(2025, 6, 15);
    state.selected_date = initial_date;

    state.move_to_next_week();
    assert_eq!(state.selected_date, day(2025, 6, 22));

    state.move_to_prev_week();
    assert_eq!(state.selected_date, day(2025, 6, 15));
}

#[test]
fn state_test_toggle_focus() {
    let mut state = AppState::new();

    assert_eq!(state.view_focus, ViewFocus::Calendar);

    state.toggle_focus();
    assert_eq!(state.view_focus, ViewFocus::Events);

    state.toggle_focus();
    assert_eq!(state.view_focus, ViewFocus::Calendar);
}

#[test]
fn test_date_range_five_month_span_normal_case() {
    let center = day(2025, 6, 15);
    let range = DateRange::five_month_span(center);

    assert_eq!(range.start, day(2025, 4, 1));
    assert_eq!(range.end, day(2025, 8, 31));
}

#[test]
fn test_date_range_five_month_span_year_boundary_start() {
    let center = day(2025, 1, 15);
    let range = DateRange::five_month_span(center);

    assert_eq!(range.start, day(2024, 11, 1));
    assert_eq!(range.end, day(2025, 3, 31));
}

#[test]
fn test_date_range_five_month_span_year_boundary_end() {
    let center = day(2025, 12, 15);
    let range = DateRange::five_month_span(center);

    assert_eq!(range.start, day(2025, 10, 1));
    assert_eq!(range.end, day(2026, 2, 28));
}

#[test]
fn test_date_range_last_day_of_month() {
    assert_eq!(DateRange::last_day_of_month(2025, 1), day(2025, 1, 31));
    assert_eq!(DateRange::last_day_of_month(2025, 2), day(2025, 2, 28));
    assert_eq!(DateRange::last_day_of_month(2024, 2), day(2024, 2, 29));
    assert_eq!(DateRange::last_day_of_month(2025, 4), day(2025, 4, 30));
    assert_eq!(DateRange::last_day_of_month(2025, 12), day(2025, 12, 31));
}

#[test]
fn test_has_events() {
    let mut state = AppState::new();
    let date = day(2025, 6, 15);

    assert!(!state.has_events(date));

    state.events.insert(date, vec![]);
    assert!(!state.has_events(date));

    let event = timed_event("test", "Test Event", "2025-06-15T10:00:00Z", "2025-06-15T11:00:00Z");
    state.events.insert(date, vec![event]);
    assert!(state.has_events(date));
}

#[test]
fn test_app_state_today_initialized() {
    let state = AppState::new();
    let expected_today = local_today();
    assert_eq!(state.today, expected_today);
    assert_eq!(state.selected_date, state.today);
}

#[test]
fn test_jump_to_today() {
    let mut state = AppState::new();
    state.selected_date = day(2025, 1, 1);
    assert_ne!(state.selected_date, state.today);

    state.jump_to_today();
    assert_eq!(state.selected_date, state.today);
}

#[test]
fn test_today_remains_constant_after_navigation() {
    let mut state = AppState::new();
    let original_today = state.today;

    state.move_selected_date(5);
    state.move_to_next_week();

    assert_eq!(state.today, original_today);
}

#[test]
fn test_event_selection_initialization() {
    let state = AppState::new();
    assert_eq!(state.selected_event_index, None);
    assert!(matches!(state.events_view_mode, EventsViewMode::List));
}

fn two_events() -> Vec<Event> {
    vec![
        timed_event("1", "Event 1", "2025-06-15T10:00:00Z", "2025-06-15T11:00:00Z"),
        timed_event("2", "Event 2", "2025-06-15T14:00:00Z", "2025-06-15T15:00:00Z"),
    ]
}

#[test]
fn test_move_event_selection_down() {
    let mut state = AppState::new();
    let date = day(2025, 6, 15);
    state.selected_date = date;
    state.events.insert(date, two_events());

    assert_eq!(state.selected_event_index, None);
    state.move_event_selection_down();
    assert_eq!(state.selected_event_index, Some(0));

    state.move_event_selection_down();
    assert_eq!(state.selected_event_index, Some(1));

    state.move_event_selection_down();
    assert_eq!(state.selected_event_index, Some(0));
}

#[test]
fn test_move_event_selection_up() {
    let mut state = AppState::new();
    let date = day(2025, 6, 15);
    state.selected_date = date;
    state.events.insert(date, two_events());

    assert_eq!(state.selected_event_index, None);
    state.move_event_selection_up();
    assert_eq!(state.selected_event_index, Some(1));

    state.move_event_selection_up();
    assert_eq!(state.selected_event_index, Some(0));

    state.move_event_selection_up();
    assert_eq!(state.selected_event_index, Some(1));
}

#[test]
fn test_move_event_selection_no_events() {
    let mut state = AppState::new();
    let date = day(2025, 6, 15);
    state.selected_date = date;

    assert_eq!(state.selected_event_index, None);

    state.move_event_selection_down();
    assert_eq!(state.selected_event_index, None);

    state.move_event_selection_up();
    assert_eq!(state.selected_event_index, None);
}

#[test]
fn selection_wraps_into_range_from_a_stale_index() {
    let mut state = AppState::with_today(day(2025, 6, 15));
    state.events.insert(day(2025, 6, 15), two_events());

    state.selected_event_index = Some(7);
    state.move_event_selection_down();
    assert_eq!(state.selected_event_index, Some(0));

    state.selected_event_index = Some(7);
    state.move_event_selection_up();
    assert_eq!(state.selected_event_index, Some(0));

    state.selected_event_index = Some(usize::MAX);
    state.move_event_selection_down();
    assert_eq!(state.selected_event_index, Some(0));
}

#[test]
fn with_today_starts_on_that_day() {
    let state = AppState::with_today(day(2024, 2, 29));
    assert_eq!(state.selected_date, day(2024, 2, 29));
    assert_eq!(state.today, day(2024, 2, 29));
    assert!(state.loading);
    assert!(state.events.is_empty());
    assert_eq!(state.pending_fetch, None);
    assert_eq!(state.loaded_fetch, None);
    assert_eq!(state.event_details_max_scroll, 0);
}

#[test]
fn move_selected_date_stays_at_the_end_of_the_calendar() {
    let mut state = AppState::with_today(Date::latest());
    state.move_selected_date(1);
    assert_eq!(state.selected_date, Date::latest());
    state.move_selected_date(i64::MAX);
    assert_eq!(state.selected_date, Date::latest());
    state.move_selected_date(-1);
    assert_eq!(state.selected_date, day(262142, 12, 30));

    let mut state = AppState::with_today(Date::earliest());
    state.move_selected_date(-1);
    assert_eq!(state.selected_date, Date::earliest());
    state.move_selected_date(i64::MIN);
    assert_eq!(state.selected_date, Date::earliest());
}

#[test]
fn select_event_needs_a_selection() {
    let mut state = AppState::with_today(day(2025, 6, 15));
    state.select_event();
    assert_eq!(state.events_view_mode, EventsViewMode::List);

    state.selected_event_index = Some(3);
    state.select_event();
    assert_eq!(state.events_view_mode, EventsViewMode::Details { event_index: 3 });

    state.exit_event_details();
    assert_eq!(state.events_view_mode, EventsViewMode::List);
    assert_eq!(state.selected_event_index, Some(3));

    state.select_event();
    state.reset_event_selection();
    assert_eq!(state.events_view_mode, EventsViewMode::List);
    assert_eq!(state.selected_event_index, None);
}

#[test]
fn get_events_for_date_keeps_the_order() {
    let mut state = AppState::with_today(day(2025, 6, 15));
    state.events.insert(day(2025, 6, 15), two_events());
    let events = state.get_events_for_date(day(2025, 6, 15));
    assert_eq!(events.len(), 2);
    assert_eq!(events[0].id, "1");
    assert_eq!(events[1].id, "2");
    assert!(state.get_events_for_date(day(2025, 6, 16)).is_empty());
    assert_eq!(state.event_count(day(2025, 6, 15)), 2);
    assert_eq!(state.event_count(day(2025, 6, 16)), 0);
}

#[test]
fn event_index_insert_replaces_and_push_appends() {
    let mut index = EventIndex::new();
    assert!(index.is_empty());
    assert_eq!(index.insert(day(2025, 6, 15), two_events()), None);
    assert_eq!(index.len(), 1);
    assert!(index.contains_key(&day(2025, 6, 15)));
    assert!(!index.contains_key(&day(2025, 6, 16)));

    let replaced = index.insert(day(2025, 6, 15), vec![]).unwrap();
    assert_eq!(replaced.len(), 2);
    assert_eq!(index.len(), 1);
    assert_eq!(index.get(&day(2025, 6, 15)).unwrap().len(), 0);

    index.push_event(day(2025, 6, 15), timed_event("a", "A", "x", "y"));
    index.push_event(day(2025, 6, 16), timed_event("b", "B", "x", "y"));
    index.push_event(day(2025, 6, 15), timed_event("c", "C", "x", "y"));
    assert_eq!(index.len(), 2);
    let first = index.get(&day(2025, 6, 15)).unwrap();
    assert_eq!(first.len(), 2);
    assert_eq!(first[0].id, "a");
    assert_eq!(first[1].id, "c");
    assert_eq!(index.get(&day(2025, 6, 16)).unwrap()[0].id, "b");
    assert!(index.get(&day(2025, 6, 17)).is_none());
}

#[test]
fn month_span_is_cut_off_at_the_ends_of_the_calendar() {
    let range = DateRange::five_month_span(day(262142, 11, 15));
    assert_eq!(range.start, day(262142, 9, 1));
    assert_eq!(range.end, Date::latest());

    let range = DateRange::five_month_span(day(-262143, 2, 1));
    assert_eq!(range.start, Date::earliest());
    assert_eq!(range.end, day(-262143, 4, 30));

    let range = DateRange::month_span(day(2025, 6, 15), 0);
    assert_eq!(range.start, day(2025, 6, 1));
    assert_eq!(range.end, day(2025, 6, 30));

    let range = DateRange::month_span(day(2025, 6, 15), u32::MAX);
    assert_eq!(range.start, Date::earliest());
    assert_eq!(range.end, Date::latest());
}

#[test]
fn retention_span_is_thirteen_months() {
    let range = DateRange::retention_span(day(2025, 6, 15));
    assert_eq!(range.start, day(2024, 12, 1));
    assert_eq!(range.end, day(2025, 12, 31));
    assert!(range.includes(&day(2024, 12, 1)));
    assert!(range.includes(&day(2025, 12, 31)));
    assert!(!range.includes(&day(2024, 11, 30)));
    assert!(!range.includes(&day(2026, 1, 1)));
}

#[test]
fn needs_refresh_at_the_edges_of_the_loaded_window() {
    let mut state = AppState::with_today(day(2025, 6, 15));
    assert!(!state.needs_refresh());

    state.loaded_fetch = Some(day(2025, 6, 15));
    assert!(!state.needs_refresh());
    state.selected_date = day(2025, 5, 31);
    assert!(!state.needs_refresh());
    state.selected_date = day(2025, 4, 30);
    assert!(state.needs_refresh());
    state.selected_date = day(2025, 8, 1);
    assert!(state.needs_refresh());
    state.selected_date = day(2025, 7, 31);
    assert!(!state.needs_refresh());
    state.selected_date = day(2025, 9, 1);
    assert!(!state.needs_refresh());
    state.selected_date = day(2024, 8, 1);
    assert!(!state.needs_refresh());
}

#[test]
fn begin_fetch_notes_the_day_and_gives_the_window() {
    let mut state = AppState::with_today(day(2025, 6, 15));
    let window = state.begin_fetch(day(2025, 12, 15));
    assert_eq!(window.start, day(2025, 10, 1));
    assert_eq!(window.end, day(2026, 2, 28));
    assert_eq!(state.pending_fetch, Some(day(2025, 12, 15)));
    assert_eq!(state.loaded_fetch, None);
}

#[test]
fn trim_evicts_outside_the_window_but_not_the_pinned_month() {
    let mut state = AppState::with_today(day(2025, 6, 15));
    state.loaded_fetch = Some(day(2025, 6, 15));
    for d in [
        day(2025, 6, 1),
        day(2025, 6, 30),
        day(2025, 5, 31),
        day(2026, 5, 1),
        day(2026, 12, 31),
        day(2027, 1, 1),
        day(2027, 7, 15),
        day(2028, 6, 15),
    ] {
        state.events.insert(d, vec![timed_event("e", "E", "x", "y")]);
    }
    state.selected_date = day(2026, 6, 15);
    state.trim_to_retention_window();

    assert!(state.events.contains_key(&day(2025, 6, 1)));
    assert!(state.events.contains_key(&day(2025, 6, 30)));
    assert!(!state.events.contains_key(&day(2025, 5, 31)));
    assert!(state.events.contains_key(&day(2026, 5, 1)));
    assert!(state.events.contains_key(&day(2026, 12, 31)));
    assert!(!state.events.contains_key(&day(2027, 1, 1)));
    assert!(!state.events.contains_key(&day(2027, 7, 15)));
    assert!(!state.events.contains_key(&day(2028, 6, 15)));
    assert_eq!(state.events.len(), 4);
    assert_eq!(state.events.get(&day(2025, 6, 1)).unwrap()[0].id, "e");
    assert_eq!(state.selected_date, day(2026, 6, 15));
}

#[test]
fn trim_without_a_loaded_window_keeps_the_retention_window_only() {
    let mut state = AppState::with_today(day(2025, 6, 15));
    state.events.insert(day(2025, 6, 15), vec![]);
    state.events.insert(day(2024, 11, 30), vec![]);
    state.events.insert(day(2024, 12, 1), vec![]);
    state.trim_to_retention_window();
    assert!(state.events.contains_key(&day(2025, 6, 15)));
    assert!(state.events.contains_key(&day(2024, 12, 1)));
    assert!(!state.events.contains_key(&day(2024, 11, 30)));
}

#[test]
fn get_calendar_by_id_finds_the_first() {
    let calendar = |id: &str, summary: &str| Calendar {
        id: id.to_string(),
        summary: summary.to_string(),
        primary: false,
        time_zone: "UTC".to_string(),
        access_role: "owner".to_string(),
        background_color: None,
        description: None,
    };
    let mut state = AppState::with_today(day(2025, 6, 15));
    state.calendars = vec![calendar("a", "first"), calendar("b", "second"), calendar("a", "third")];
    assert_eq!(state.get_calendar_by_id("a").unwrap().summary, "first");
    assert_eq!(state.get_calendar_by_id("b").unwrap().summary, "second");
    assert!(state.get_calendar_by_id("c").is_none());
    state.update_event_details_max_scroll(9);
    assert_eq!(state.event_details_max_scroll, 9);
}

#[test]
fn a_selection_does_not_outlive_a_change_of_the_day() {
    let mut state = AppState::with_today(day(2025, 6, 15));
    state.events.insert(day(2025, 6, 15), two_events());
    state.selected_event_index = Some(1);
    state.events_view_mode = EventsViewMode::Details { event_index: 1 };

    state.move_selected_date(0);
    assert_eq!(state.selected_event_index, Some(1));
    assert_eq!(state.events_view_mode, EventsViewMode::Details { event_index: 1 });
    state.jump_to_today();
    assert_eq!(state.selected_event_index, Some(1));
    state.select_date(day(2025, 6, 15));
    assert_eq!(state.events_view_mode, EventsViewMode::Details { event_index: 1 });

    state.move_selected_date(1);
    assert_eq!(state.selected_date, day(2025, 6, 16));
    assert_eq!(state.selected_event_index, None);
    assert_eq!(state.events_view_mode, EventsViewMode::List);

    state.selected_event_index = Some(0);
    state.events_view_mode = EventsViewMode::Details { event_index: 0 };
    state.jump_to_today();
    assert_eq!(state.selected_date, day(2025, 6, 15));
    assert_eq!(state.selected_event_index, None);
    assert_eq!(state.events_view_mode, EventsViewMode::List);

    state.selected_event_index = Some(0);
    state.move_to_next_week();
    assert_eq!(state.selected_event_index, None);
    state.selected_event_index = Some(0);
    state.move_to_prev_week();
    assert_eq!(state.selected_event_index, None);
    state.selected_event_index = Some(0);
    state.select_date(day(2030, 1, 1));
    assert_eq!(state.selected_date, day(2030, 1, 1));
    assert_eq!(state.selected_event_index, None);
    assert_eq!(state.today, day(2025, 6, 15));
}
