//! The state of the terminal application and what is shown of it.

pub mod app;
pub mod color_utils;
pub mod fetcher;
pub mod input;
pub mod loader;
pub mod state;
pub mod widgets;

pub use loader::DataMessage;
pub use input::{handle_key_event, InputAction, KeyCode, KeyEvent};
pub use state::{AppState, DateRange, EventIndex, EventsViewMode, ViewFocus};
