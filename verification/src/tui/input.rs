//! The key router: what each key does to the state, and what it asks of the
//! loop that reads the keys.

use super::state::{AppState, EventsViewMode, ViewFocus};
use crate::date::lemma_plus_days_back;
use vstd::prelude::*;

verus! {

/// The keys that the router tells apart. A key that has no variant of its
/// own is `Other`.
#[derive(Debug, Clone, Copy, PartialEq, Eq, Structural)]
pub enum KeyCode {
    Char(char),
    Tab,
    Esc,
    Enter,
    Left,
    Right,
    Up,
    Down,
    Other,
}

/// A key that was pressed.
#[derive(Debug, Clone, Copy, PartialEq, Eq, Structural)]
pub struct KeyEvent {
    pub code: KeyCode,
}

impl KeyEvent {
    /// The event of pressing the key `code`.
    pub fn new(code: KeyCode) -> (r: KeyEvent)
        ensures
            r.code == code,
    {
        KeyEvent { code }
    }
}

/// What the loop is to do after a key.
#[derive(Debug, Clone, Copy, PartialEq, Eq, Structural)]
pub enum InputAction {
    Quit,
    Refresh,
    /// Nothing but to go on.
    Nothing,
}

/// The number of days by which `code` moves the selected day while the
/// calendar pane has the focus; `None` for a key that does not move it.
pub open spec fn day_step(code: KeyCode) -> Option<int> {
    match code {
        KeyCode::Left | KeyCode::Char('h') => Some(-1),
        KeyCode::Right | KeyCode::Char('l') => Some(1),
        KeyCode::Up | KeyCode::Char('k') => Some(-7),
        KeyCode::Down | KeyCode::Char('j') => Some(7),
        _ => None,
    }
}

/// Whether `code` is one of the keys that mean the same in every state.
pub open spec fn is_global_key(code: KeyCode) -> bool {
    code == KeyCode::Char('q') || code == KeyCode::Char('r') || code == KeyCode::Char('t') || code
        == KeyCode::Tab
}

/// Whether `key`, pressed in state `pre`, is a key that changes the selected
/// day: a key that moves the day while the calendar pane has the focus, or
/// the key for today while another day is selected.
pub open spec fn is_date_key(pre: AppState, key: KeyEvent) -> bool {
    ||| key.code == KeyCode::Char('t') && pre.selected_date != pre.today
    ||| !is_global_key(key.code) && pre.view_focus == ViewFocus::Calendar && day_step(key.code) is Some
}

/// State `pre` with the selected day moved by `days` days, where that day is
/// in range, and with the selection in the list of events cleared.
pub open spec fn after_day_step(pre: AppState, days: int) -> AppState {
    AppState {
        selected_date: match pre.selected_date@.plus_days(days) {
            Some(d) => d,
            None => pre.selected_date,
        },
        selected_event_index: None,
        events_view_mode: EventsViewMode::List,
        ..pre
    }
}

/// The state after `key` was pressed in state `pre`.
pub open spec fn state_after_key(pre: AppState, key: KeyEvent) -> AppState {
    match key.code {
        KeyCode::Char('q') | KeyCode::Char('r') => pre,
        KeyCode::Char('t') => pre.with_selected_date(pre.today),
        KeyCode::Tab => AppState {
            view_focus: match pre.view_focus {
                ViewFocus::Calendar => ViewFocus::Events,
                ViewFocus::Events => ViewFocus::Calendar,
            },
            ..pre
        },
        code => match pre.view_focus {
            ViewFocus::Calendar => match day_step(code) {
                Some(days) => after_day_step(pre, days),
                None => pre,
            },
            ViewFocus::Events => match pre.events_view_mode {
                EventsViewMode::List => match code {
                    KeyCode::Up | KeyCode::Char('k') => AppState {
                        selected_event_index: AppState::selection_after_up(
                            pre.selected_event_index,
                            pre.selected_events().len() as int,
                        ),
                        ..pre
                    },
                    KeyCode::Down | KeyCode::Char('j') => AppState {
                        selected_event_index: AppState::selection_after_down(
                            pre.selected_event_index,
                            pre.selected_events().len() as int,
                        ),
                        ..pre
                    },
                    KeyCode::Enter => AppState {
                        events_view_mode: match pre.selected_event_index {
                            Some(index) => EventsViewMode::Details { event_index: index },
                            None => pre.events_view_mode,
                        },
                        ..pre
                    },
                    _ => pre,
                },
                EventsViewMode::Details { .. } => match code {
                    KeyCode::Esc => AppState { events_view_mode: EventsViewMode::List, ..pre },
                    _ => pre,
                },
            },
        },
    }
}

/// What `key`, pressed in state `pre`, asks of the loop. Escape quits, but
/// not from the details of an event, which it closes.
pub open spec fn action_of_key(pre: AppState, key: KeyEvent) -> InputAction {
    match key.code {
        KeyCode::Char('q') => InputAction::Quit,
        KeyCode::Char('r') => InputAction::Refresh,
        KeyCode::Esc => if pre.view_focus == ViewFocus::Events && pre.events_view_mode
            != EventsViewMode::List {
            InputAction::Nothing
        } else {
            InputAction::Quit
        },
        _ => InputAction::Nothing,
    }
}

/// Routes one key: the global keys first, then by the pane that has the
/// focus.
pub fn handle_key_event(key: KeyEvent, state: &mut AppState) -> (action: InputAction)
    ensures
        *final(state) == state_after_key(*old(state), key),
        action == action_of_key(*old(state), key),
        final(state).today == old(state).today,
        is_date_key(*old(state), key) ==> {
            &&& final(state).selected_event_index is None
            &&& final(state).events_view_mode == EventsViewMode::List
        },
        final(state).selected_date != old(state).selected_date ==> {
            &&& final(state).selected_event_index is None
            &&& final(state).events_view_mode == EventsViewMode::List
        },
{
    match key.code {
        KeyCode::Char('q') => {
            return InputAction::Quit;
        },
        KeyCode::Char('r') => {
            return InputAction::Refresh;
        },
        KeyCode::Char('t') => {
            state.jump_to_today();
            return InputAction::Nothing;
        },
        KeyCode::Tab => {
            state.toggle_focus();
            return InputAction::Nothing;
        },
        _ => {},
    }
    match state.view_focus {
        ViewFocus::Calendar => handle_calendar_input(key, state),
        ViewFocus::Events => handle_events_input(key, state),
    }
}

/// The keys of the calendar pane: they move the selected day by a day or by
/// a week, and each move clears the selection in the list of events.
fn handle_calendar_input(key: KeyEvent, state: &mut AppState) -> (action: InputAction)
    requires
        !is_global_key(key.code),
        old(state).view_focus == ViewFocus::Calendar,
    ensures
        *final(state) == state_after_key(*old(state), key),
        action == action_of_key(*old(state), key),
{
    match key.code {
        KeyCode::Esc => InputAction::Quit,
        KeyCode::Left | KeyCode::Char('h') => {
            state.move_selected_date(-1);
            state.reset_event_selection();
            InputAction::Nothing
        },
        KeyCode::Right | KeyCode::Char('l') => {
            state.move_selected_date(1);
            state.reset_event_selection();
            InputAction::Nothing
        },
        KeyCode::Up | KeyCode::Char('k') => {
            state.move_to_prev_week();
            state.reset_event_selection();
            InputAction::Nothing
        },
        KeyCode::Down | KeyCode::Char('j') => {
            state.move_to_next_week();
            state.reset_event_selection();
            InputAction::Nothing
        },
        _ => InputAction::Nothing,
    }
}

/// The keys of the pane of events, by what the pane shows.
fn handle_events_input(key: KeyEvent, state: &mut AppState) -> (action: InputAction)
    requires
        !is_global_key(key.code),
        old(state).view_focus == ViewFocus::Events,
    ensures
        *final(state) == state_after_key(*old(state), key),
        action == action_of_key(*old(state), key),
{
    match state.events_view_mode {
        EventsViewMode::List => handle_events_list_input(key, state),
        EventsViewMode::Details { .. } => handle_events_details_input(key, state),
    }
}

/// The keys of the list of events: up and down move the mark, Enter opens
/// the details of the marked event.
fn handle_events_list_input(key: KeyEvent, state: &mut AppState) -> (action: InputAction)
    requires
        !is_global_key(key.code),
        old(state).view_focus == ViewFocus::Events,
        old(state).events_view_mode == EventsViewMode::List,
    ensures
        *final(state) == state_after_key(*old(state), key),
        action == action_of_key(*old(state), key),
{
    match key.code {
        KeyCode::Esc => InputAction::Quit,
        KeyCode::Up | KeyCode::Char('k') => {
            state.move_event_selection_up();
            InputAction::Nothing
        },
        KeyCode::Down | KeyCode::Char('j') => {
            state.move_event_selection_down();
            InputAction::Nothing
        },
        KeyCode::Enter => {
            state.select_event();
            InputAction::Nothing
        },
        _ => InputAction::Nothing,
    }
}

/// The keys of the details of an event: Escape goes back to the list.
fn handle_events_details_input(key: KeyEvent, state: &mut AppState) -> (action: InputAction)
    requires
        !is_global_key(key.code),
        old(state).view_focus == ViewFocus::Events,
        old(state).events_view_mode != EventsViewMode::List,
    ensures
        *final(state) == state_after_key(*old(state), key),
        action == action_of_key(*old(state), key),
{
    match key.code {
        KeyCode::Esc => {
            state.exit_event_details();
            InputAction::Nothing
        },
        _ => InputAction::Nothing,
    }
}

/// The state after the keys `keys` were pressed one after the other,
/// starting in state `pre`.
pub open spec fn state_after_keys(pre: AppState, keys: Seq<KeyEvent>) -> AppState
    decreases keys.len(),
{
    if keys.len() == 0 {
        pre
    } else {
        state_after_key(state_after_keys(pre, keys.drop_last()), keys.last())
    }
}

/// A key that changes the selected day leaves no event selected and the list
/// of events shown.
pub proof fn lemma_date_key_clears_selection(pre: AppState, key: KeyEvent)
    requires
        is_date_key(pre, key),
    ensures
        state_after_key(pre, key).selected_event_index is None,
        state_after_key(pre, key).events_view_mode == EventsViewMode::List,
{
}

/// Whatever keys are pressed: if key `i` is a key that changes the selected
/// day, and no key after it changes the state, then at the end no event is
/// selected and the list of events is shown.
pub proof fn lemma_selection_clear_after_last_date_key(
    pre: AppState,
    keys: Seq<KeyEvent>,
    i: int,
)
    requires
        0 <= i < keys.len(),
        is_date_key(state_after_keys(pre, keys.take(i)), keys[i]),
        forall|j: int|
            i < j < keys.len() ==> #[trigger] state_after_keys(pre, keys.take(j + 1))
                == state_after_keys(pre, keys.take(j)),
    ensures
        state_after_keys(pre, keys).selected_event_index is None,
        state_after_keys(pre, keys).events_view_mode == EventsViewMode::List,
    decreases keys.len() - i,
{
    assert(keys.take(keys.len() as int) =~= keys);
    if i == keys.len() - 1 {
        assert(keys.drop_last() =~= keys.take(i));
        lemma_date_key_clears_selection(state_after_keys(pre, keys.take(i)), keys[i]);
    } else {
        let shorter = keys.drop_last();
        assert(shorter =~= keys.take(keys.len() - 1));
        assert(shorter.take(i) =~= keys.take(i));
        assert forall|j: int| i < j < shorter.len() implies #[trigger] state_after_keys(
            pre,
            shorter.take(j + 1),
        ) == state_after_keys(pre, shorter.take(j)) by {
            assert(shorter.take(j + 1) =~= keys.take(j + 1));
            assert(shorter.take(j) =~= keys.take(j));
        }
        lemma_selection_clear_after_last_date_key(pre, shorter, i);
        let j = keys.len() - 1;
        assert(state_after_keys(pre, keys.take(j + 1)) == state_after_keys(pre, keys.take(j)));
    }
}

/// No key changes the day on which the state was made.
pub proof fn lemma_keys_keep_today(pre: AppState, keys: Seq<KeyEvent>)
    ensures
        state_after_keys(pre, keys).today == pre.today,
    decreases keys.len(),
{
    if keys.len() > 0 {
        lemma_keys_keep_today(pre, keys.drop_last());
    }
}

/// In the calendar pane, a key that moves the selected day and then a key
/// that moves it as far the other way lead back to the day of the start,
/// if the day between them is in range.
pub proof fn lemma_opposite_keys_cancel(pre: AppState, there: KeyEvent, back: KeyEvent, days: int)
    requires
        pre.selected_date@.valid(),
        pre.view_focus == ViewFocus::Calendar,
        !is_global_key(there.code) && day_step(there.code) == Some(days),
        !is_global_key(back.code) && day_step(back.code) == Some(-days),
        pre.selected_date@.plus_days(days) is Some,
    ensures
        state_after_key(state_after_key(pre, there), back).selected_date == pre.selected_date,
{
    lemma_plus_days_back(pre.selected_date, days);
}

/// Whatever keys were pressed before it, the key for today selects the day
/// on which the state was made.
pub proof fn lemma_today_key_selects_today(pre: AppState, keys: Seq<KeyEvent>)
    ensures
        state_after_key(
            state_after_keys(pre, keys),
            KeyEvent { code: KeyCode::Char('t') },
        ).selected_date == pre.today,
{
    lemma_keys_keep_today(pre, keys);
}

} // verus!
