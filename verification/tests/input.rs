use calendar_tui::calendar::models::{Event, EventDateTime};
use calendar_tui::date::Date;
use calendar_tui::tui::input::{handle_key_event, InputAction, KeyCode, KeyEvent};
use calendar_tui::tui::state::{AppState, EventsViewMode, ViewFocus};

fn create_key_event(code: KeyCode) -> KeyEvent {
    KeyEvent::new(code)
}

fn day(year: i32, month: u32, day: u32) -> Date {
    Date::from_ymd_opt(year, month, day).unwrap()
}

fn one_event() -> Vec<Event> {
    vec![Event {
        id: "1".to_string(),
        summary: Some("Event 1".to_string()),
        description: None,
        location: None,
        start: EventDateTime {
            date_time: Some("2025-06-15T10:00:00Z".to_string()),
            date: None,
            time_zone: None,
        },
        end: EventDateTime {
            date_time: Some("2025-06-15T11:00:00Z".to_string()),
            date: None,
            time_zone: None,
        },
        status: None,
        html_link: None,
        attendees: None,
        calendar_id: None,
    }]
}

#[test]
fn test_quit_actions() {
    let mut state = AppState::new();

    let action = handle_key_event(create_key_event(KeyCode::Char('q')), &mut state);
    assert!(matches!(action, InputAction::Quit));

    let action = handle_key_event(create_key_event(KeyCode::Esc), &mut state);
    assert!(matches!(action, InputAction::Quit));
}

#[test]
fn test_refresh_action() {
    let mut state = AppState::new();

    let action = handle_key_event(create_key_event(KeyCode::Char('r')), &mut state);
    assert!(matches!(action, InputAction::Refresh));
}

#[test]
fn test_navigation_left_right() {
    let mut state = AppState::new();
    state.view_focus = ViewFocus::Calendar;
    let initial_date = day(2025, 6, 15);
    state.selected_date = initial_date;

    handle_key_event(create_key_event(KeyCode::Right), &mut state);
    assert_eq!(state.selected_date, day(2025, 6, 16));

    handle_key_event(create_key_event(KeyCode::Left), &mut state);
    assert_eq!(state.selected_date, day(2025, 6, 15));

    handle_key_event(create_key_event(KeyCode::Char('l')), &mut state);
    assert_eq!(state.selected_date, day(2025, 6, 16));

    handle_key_event(create_key_event(KeyCode::Char('h')), &mut state);
    assert_eq!(state.selected_date, day(2025, 6, 15));
}

#[test]
fn test_navigation_up_down() {
    let mut state = AppState::new();
    state.view_focus = ViewFocus::Calendar;
    let initial_date = day(2025, 6, 15);
    state.selected_date = initial_date;

    handle_key_event(create_key_event(KeyCode::Down), &mut state);
    assert_eq!(state.selected_date, day(2025, 6, 22));

    handle_key_event(create_key_event(KeyCode::Up), &mut state);
    assert_eq!(state.selected_date, day(2025, 6, 15));

    handle_key_event(create_key_event(KeyCode::Char('j')), &mut state);
    assert_eq!(state.selected_date, day(2025, 6, 22));

    handle_key_event(create_key_event(KeyCode::Char('k')), &mut state);
    assert_eq!(state.selected_date, day(2025, 6, 15));
}

#[test]
fn input_test_toggle_focus() {
    let mut state = AppState::new();
    assert_eq!(state.view_focus, ViewFocus::Calendar);

    handle_key_event(create_key_event(KeyCode::Tab), &mut state);
    assert_eq!(state.view_focus, ViewFocus::Events);

    handle_key_event(create_key_event(KeyCode::Tab), &mut state);
    assert_eq!(state.view_focus, ViewFocus::Calendar);
}

#[test]
fn test_t_key_jumps_to_today() {
    let mut state = AppState::new();
    let away_date = day(2025, 12, 25);
    state.selected_date = away_date;
    assert_ne!(state.selected_date, state.today);

    let action = handle_key_event(create_key_event(KeyCode::Char('t')), &mut state);

    assert!(matches!(action, InputAction::Nothing));
    assert_eq!(state.selected_date, state.today);
}

#[test]
fn test_t_key_when_already_on_today() {
    let mut state = AppState::new();
    assert_eq!(state.selected_date, state.today);

    handle_key_event(create_key_event(KeyCode::Char('t')), &mut state);

    assert_eq!(state.selected_date, state.today);
}

#[test]
fn test_calendar_keys_only_work_when_calendar_focused() {
    let mut state = AppState::new();
    let initial_date = day(2025, 6, 15);
    state.selected_date = initial_date;
    state.view_focus = ViewFocus::Events;

    handle_key_event(create_key_event(KeyCode::Right), &mut state);
    assert_eq!(state.selected_date, initial_date);

    handle_key_event(create_key_event(KeyCode::Down), &mut state);
    assert_eq!(state.selected_date, initial_date);
}

#[test]
fn test_events_keys_only_work_when_events_focused() {
    let mut state = AppState::new();
    let date = day(2025, 6, 15);
    state.selected_date = date;
    state.view_focus = ViewFocus::Calendar;
    state.events.insert(date, one_event());

    handle_key_event(create_key_event(KeyCode::Down), &mut state);
    assert_eq!(state.selected_event_index, None);

    handle_key_event(create_key_event(KeyCode::Up), &mut state);
    assert_eq!(state.selected_event_index, None);
}

#[test]
fn test_enter_opens_details() {
    let mut state = AppState::new();
    let date = day(2025, 6, 15);
    state.selected_date = date;
    state.view_focus = ViewFocus::Events;
    state.events.insert(date, one_event());

    state.move_event_selection_down();
    assert_eq!(state.selected_event_index, Some(0));
    assert!(matches!(state.events_view_mode, EventsViewMode::List));

    handle_key_event(create_key_event(KeyCode::Enter), &mut state);
    assert!(matches!(state.events_view_mode, EventsViewMode::Details { event_index: 0 }));
}

#[test]
fn test_esc_closes_details() {
    let mut state = AppState::new();
    state.view_focus = ViewFocus::Events;
    state.events_view_mode = EventsViewMode::Details { event_index: 0 };

    let action = handle_key_event(create_key_event(KeyCode::Esc), &mut state);

    assert!(matches!(action, InputAction::Nothing));
    assert!(matches!(state.events_view_mode, EventsViewMode::List));
}

#[test]
fn test_tab_toggles_focus_from_any_mode() {
    let mut state = AppState::new();

    state.view_focus = ViewFocus::Calendar;
    handle_key_event(create_key_event(KeyCode::Tab), &mut state);
    assert_eq!(state.view_focus, ViewFocus::Events);

    handle_key_event(create_key_event(KeyCode::Tab), &mut state);
    assert_eq!(state.view_focus, ViewFocus::Calendar);

    state.view_focus = ViewFocus::Events;
    state.events_view_mode = EventsViewMode::Details { event_index: 0 };
    handle_key_event(create_key_event(KeyCode::Tab), &mut state);
    assert_eq!(state.view_focus, ViewFocus::Calendar);
}

#[test]
fn test_global_keys_work_regardless_of_focus() {
    let mut state = AppState::new();
    let initial_date = day(2025, 6, 15);
    state.selected_date = initial_date;

    state.view_focus = ViewFocus::Calendar;
    state.selected_date = day(2025, 1, 1);
    handle_key_event(create_key_event(KeyCode::Char('t')), &mut state);
    assert_eq!(state.selected_date, state.today);

    state.view_focus = ViewFocus::Events;
    state.selected_date = day(2025, 1, 1);
    handle_key_event(create_key_event(KeyCode::Char('t')), &mut state);
    assert_eq!(state.selected_date, state.today);

    state.view_focus = ViewFocus::Calendar;
    let action = handle_key_event(create_key_event(KeyCode::Char('q')), &mut state);
    assert!(matches!(action, InputAction::Quit));

    state.view_focus = ViewFocus::Events;
    let action = handle_key_event(create_key_event(KeyCode::Char('q')), &mut state);
    assert!(matches!(action, InputAction::Quit));
}

#[test]
fn test_date_change_resets_selection() {
    let mut state = AppState::new();
    let date = day(2025, 6, 15);
    state.selected_date = date;
    state.view_focus = ViewFocus::Calendar;
    state.events.insert(date, one_event());
    state.selected_event_index = Some(0);
    state.events_view_mode = EventsViewMode::Details { event_index: 0 };

    handle_key_event(create_key_event(KeyCode::Right), &mut state);

    assert_eq!(state.selected_event_index, None);
    assert!(matches!(state.events_view_mode, EventsViewMode::List));
}

#[test]
fn test_esc_quits_from_list_mode() {
    let mut state = AppState::new();
    state.view_focus = ViewFocus::Events;
    state.events_view_mode = EventsViewMode::List;

    let action = handle_key_event(create_key_event(KeyCode::Esc), &mut state);

    assert!(matches!(action, InputAction::Quit));
}

#[test]
fn week_and_day_moves_from_mid_june() {
    let mut state = AppState::with_today(day(2024, 3, 1));
    state.selected_date = day(2025, 6, 15);

    handle_key_event(create_key_event(KeyCode::Right), &mut state);
    assert_eq!(state.selected_date, day(2025, 6, 16));
    handle_key_event(create_key_event(KeyCode::Left), &mut state);
    assert_eq!(state.selected_date, day(2025, 6, 15));
    handle_key_event(create_key_event(KeyCode::Down), &mut state);
    assert_eq!(state.selected_date, day(2025, 6, 22));
    handle_key_event(create_key_event(KeyCode::Tab), &mut state);
    handle_key_event(create_key_event(KeyCode::Char('t')), &mut state);
    assert_eq!(state.selected_date, day(2024, 3, 1));
    assert_eq!(state.today, day(2024, 3, 1));
}

#[test]
fn every_date_key_clears_the_selection() {
    for code in [
        KeyCode::Left,
        KeyCode::Right,
        KeyCode::Up,
        KeyCode::Down,
        KeyCode::Char('h'),
        KeyCode::Char('j'),
        KeyCode::Char('k'),
        KeyCode::Char('l'),
        KeyCode::Char('t'),
    ] {
        let mut state = AppState::with_today(day(2020, 1, 1));
        state.selected_date = day(2025, 6, 15);
        state.events.insert(day(2025, 6, 15), one_event());
        state.selected_event_index = Some(0);
        state.events_view_mode = EventsViewMode::Details { event_index: 0 };
        let action = handle_key_event(create_key_event(code), &mut state);
        assert_eq!(action, InputAction::Nothing);
        assert_ne!(state.selected_date, day(2025, 6, 15));
        assert_eq!(state.selected_event_index, None);
        assert_eq!(state.events_view_mode, EventsViewMode::List);
    }
}

#[test]
fn today_key_on_today_keeps_the_selection() {
    let mut state = AppState::with_today(day(2025, 6, 15));
    state.view_focus = ViewFocus::Events;
    state.events.insert(day(2025, 6, 15), one_event());
    state.selected_event_index = Some(0);
    state.events_view_mode = EventsViewMode::Details { event_index: 0 };
    handle_key_event(create_key_event(KeyCode::Char('t')), &mut state);
    assert_eq!(state.selected_event_index, Some(0));
    assert_eq!(state.events_view_mode, EventsViewMode::Details { event_index: 0 });
}

#[test]
fn keys_in_details_are_inert_but_for_escape_and_the_global_keys() {
    for code in [
        KeyCode::Up,
        KeyCode::Down,
        KeyCode::Left,
        KeyCode::Right,
        KeyCode::Enter,
        KeyCode::Char('j'),
        KeyCode::Char('k'),
        KeyCode::Char('x'),
        KeyCode::Other,
    ] {
        let mut state = AppState::with_today(day(2025, 6, 15));
        state.view_focus = ViewFocus::Events;
        state.events.insert(day(2025, 6, 15), one_event());
        state.selected_event_index = Some(0);
        state.events_view_mode = EventsViewMode::Details { event_index: 0 };
        let action = handle_key_event(create_key_event(code), &mut state);
        assert_eq!(action, InputAction::Nothing);
        assert_eq!(state.selected_date, day(2025, 6, 15));
        assert_eq!(state.selected_event_index, Some(0));
        assert_eq!(state.events_view_mode, EventsViewMode::Details { event_index: 0 });
        assert_eq!(state.view_focus, ViewFocus::Events);
    }
}

#[test]
fn enter_without_a_selection_stays_in_the_list() {
    let mut state = AppState::with_today(day(2025, 6, 15));
    state.view_focus = ViewFocus::Events;
    state.events.insert(day(2025, 6, 15), one_event());
    let action = handle_key_event(create_key_event(KeyCode::Enter), &mut state);
    assert_eq!(action, InputAction::Nothing);
    assert_eq!(state.events_view_mode, EventsViewMode::List);
}

#[test]
fn list_keys_move_the_mark() {
    let mut state = AppState::with_today(day(2025, 6, 15));
    state.view_focus = ViewFocus::Events;
    state.events.insert(day(2025, 6, 15), one_event());
    handle_key_event(create_key_event(KeyCode::Char('j')), &mut state);
    assert_eq!(state.selected_event_index, Some(0));
    handle_key_event(create_key_event(KeyCode::Down), &mut state);
    assert_eq!(state.selected_event_index, Some(0));
    handle_key_event(create_key_event(KeyCode::Char('k')), &mut state);
    assert_eq!(state.selected_event_index, Some(0));
    handle_key_event(create_key_event(KeyCode::Up), &mut state);
    assert_eq!(state.selected_event_index, Some(0));
    assert_eq!(state.selected_date, day(2025, 6, 15));
}

#[test]
fn unknown_keys_do_nothing_in_the_calendar() {
    let mut state = AppState::with_today(day(2025, 6, 15));
    state.selected_event_index = Some(2);
    for code in [KeyCode::Enter, KeyCode::Other, KeyCode::Char('x'), KeyCode::Char('Q')] {
        let action = handle_key_event(create_key_event(code), &mut state);
        assert_eq!(action, InputAction::Nothing);
    }
    assert_eq!(state.selected_date, day(2025, 6, 15));
    assert_eq!(state.selected_event_index, Some(2));
    assert_eq!(state.view_focus, ViewFocus::Calendar);
}
