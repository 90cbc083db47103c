//! KeyToKey: a library for building keyboard firmwares.
//!
//! A keyboard firmware reads key presses, translates them, and outputs the
//! results to a computer. This library does the translation: it takes a
//! stream of events (key presses, releases and timeouts) and translates
//! them, using a series of handlers, into USB keyboard reports.
pub mod handlers;
pub mod key_codes;
pub mod key_stream;
pub mod keyboard;
pub mod matrix;
pub mod output;
pub mod premade;
pub mod state;
pub mod test_helpers;

pub use crate::handlers::{HandlerResult, ProcessKeys};
pub use crate::key_codes::{AcceptsKeycode, KeyCode, KeyCodeInfo, UserKey, UNICODE_BELOW_256};
pub use crate::key_stream::{iter_unhandled_mut, Event, EventStatus, Key};
pub use crate::keyboard::Keyboard;
pub use crate::output::KeyOutCatcher;
pub use crate::state::{HandlerID, KeyboardState, Modifier, UnicodeSendMode};
