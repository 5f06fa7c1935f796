//! A terminal tool's verified core: it types lines of text into an external
//! application's chat box by simulating keyboard input.
//!
//! The library holds the logic worth checking: encoding characters into key
//! events, building the exact event-and-delay sequence for a message, the
//! orchestration that refuses to emit anything when the target window is
//! missing, batch sending with cooperative cancellation, the file-browser
//! state, and the parsing of text files into sendable lines. The surrounding
//! binary performs the platform work (terminal drawing, file reading, and the
//! synthetic-input backend where one exists) and feeds plain values in.

pub mod app;
pub mod balance;
pub mod batch;
pub mod config;
pub mod display;
pub mod encoder;
pub mod events;
pub mod files;
pub mod logging;
pub mod platform;
pub mod text;

pub use app::App;
pub use files::TextFile;
pub use platform::{focus_window, is_window_running, send_text};
