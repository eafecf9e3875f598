//! What the loop that draws the screen and reads the keys decides: how a
//! message of the loader changes the state, what follows a key, and what the
//! status bar says.

use super::input::InputAction;
use super::loader::DataMessage;
use super::state::{AppState, DateRange, FETCH_MONTHS};
use vstd::prelude::*;

verus! {

/// The state `pre` after `message` of the loader was taken in.
///
/// `Loading` marks the state as loading. `Success` replaces the calendars
/// and the index of events by what was gathered, and the day around which
/// that pass was begun becomes the day of the loaded window; a warning of
/// the pass is shown as the error. `Error` keeps what is loaded and records
/// the text of the error.
pub open spec fn state_after_message(pre: AppState, message: DataMessage) -> AppState {
    match message {
        DataMessage::Loading => AppState { loading: true, error: None, ..pre },
        DataMessage::Success { calendars, events, warning } => AppState {
            calendars,
            events,
            loading: false,
            error: warning,
            loaded_fetch: pre.pending_fetch,
            pending_fetch: None,
            ..pre
        },
        DataMessage::Error { message } => AppState {
            loading: false,
            error: Some(message),
            pending_fetch: None,
            ..pre
        },
    }
}

/// Takes a message of the loader into the state. Returns whether the loader
/// is to be dropped: it is after `Success` and after `Error`, so that
/// nothing it might still send can overwrite the state.
pub fn apply_message(state: &mut AppState, message: DataMessage) -> (drop_loader: bool)
    ensures
        *final(state) == state_after_message(*old(state), message),
        drop_loader == message.terminal(),
        final(state).selected_date == old(state).selected_date,
        final(state).today == old(state).today,
{
    match message {
        DataMessage::Loading => {
            state.loading = true;
            state.error = None;
            false
        },
        DataMessage::Success { calendars, events, warning } => {
            state.calendars = calendars;
            state.events = events;
            state.loading = false;
            state.error = warning;
            state.loaded_fetch = state.pending_fetch;
            state.pending_fetch = None;
            true
        },
        DataMessage::Error { message } => {
            state.loading = false;
            state.error = Some(message);
            state.pending_fetch = None;
            true
        },
    }
}

/// What the loop does after a key was routed.
#[derive(Debug, Clone, Copy, PartialEq, Eq, Structural)]
pub enum LoopCommand {
    /// Leave the loop.
    Quit,
    /// Start a loader for this window of days, then go on.
    StartLoad(DateRange),
    /// Go on.
    Continue,
}

/// Whether, after `action` in state `state`, a pass of loading is to begin:
/// the user asked for it, or the selected day has reached the edge of the
/// window that is loaded. No pass begins while a loader is at work.
pub open spec fn load_is_due(state: AppState, action: InputAction, loader_active: bool) -> bool {
    !loader_active && (action == InputAction::Refresh || (action == InputAction::Nothing
        && state.at_edge_of_loaded_window()))
}

/// Decides what follows a key. After `Quit` the loop ends and the state is
/// left as it is. Otherwise the cache is cut down to the retention window
/// of the selected day, and where a pass of loading is due it is begun
/// around the selected day.
pub fn after_key(state: &mut AppState, action: InputAction, loader_active: bool) -> (command:
    LoopCommand)
    ensures
        action == InputAction::Quit ==> command is Quit && *final(state) == *old(state),
        action != InputAction::Quit ==> {
            &&& final(state).events@ == old(state).events@.restrict(
                Set::new(
                    |d: crate::date::Date|
                        old(state).in_retention_window(d) || old(state).in_pinned_month(d),
                ),
            )
            &&& final(state).selected_date == old(state).selected_date
            &&& final(state).today == old(state).today
            &&& final(state).selected_event_index == old(state).selected_event_index
            &&& final(state).events_view_mode == old(state).events_view_mode
            &&& final(state).view_focus == old(state).view_focus
            &&& final(state).loaded_fetch == old(state).loaded_fetch
            &&& if load_is_due(*old(state), action, loader_active) {
                &&& command matches LoopCommand::StartLoad(window)
                &&& window.is_month_span(old(state).selected_date@, FETCH_MONTHS as int)
                &&& final(state).pending_fetch == Some(old(state).selected_date)
            } else {
                &&& command is Continue
                &&& final(state).pending_fetch == old(state).pending_fetch
            }
        },
{
    match action {
        InputAction::Quit => LoopCommand::Quit,
        _ => {
            state.trim_to_retention_window();
            let asked = match action {
                InputAction::Refresh => true,
                _ => state.needs_refresh(),
            };
            if asked && !loader_active {
                let center = state.selected_date;
                LoopCommand::StartLoad(state.begin_fetch(center))
            } else {
                LoopCommand::Continue
            }
        },
    }
}

/// What the status bar shows.
#[derive(Debug, Clone, Copy, PartialEq, Eq)]
pub enum StatusLine<'a> {
    /// That calendars and events are being loaded.
    Loading,
    /// The text of the error of the last pass.
    Error(&'a str),
    /// The keys and what they do.
    KeyHints,
}

/// What the status bar shows in state `state`: loading comes before an
/// error, and an error before the keys.
pub fn status_line<'a>(state: &'a AppState) -> (r: StatusLine<'a>)
    ensures
        state.loading ==> r is Loading,
        !state.loading ==> match state.error {
            Some(text) => r matches StatusLine::Error(shown) && shown@ == text@,
            None => r is KeyHints,
        },
{
    if state.loading {
        StatusLine::Loading
    } else {
        match &state.error {
            Some(text) => StatusLine::Error(text.as_str()),
            None => StatusLine::KeyHints,
        }
    }
}

} // verus!
