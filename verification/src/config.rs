//! Delay constants and default settings.
//!
//! Every pause the input driver takes is a fixed, named duration. The values
//! are empirically tuned dwell times: target applications poll input state
//! rather than trust event timestamps, so a zero-length dwell is frequently
//! dropped.

use vstd::prelude::*;

verus! {

/// Delay between each character typed (lower = faster typing).
pub const CHAR_TYPE_DELAY_MS: u64 = 5;

/// Delay after focusing the window before starting to type.
pub const FOCUS_DELAY_MS: u64 = 50;

/// Delay after opening the chat box before typing the message.
pub const CHAT_OPEN_DELAY_MS: u64 = 100;

/// Delay after typing the message before pressing Enter.
pub const AFTER_TYPE_DELAY_MS: u64 = 30;

/// Delay after pressing Enter to send.
pub const AFTER_SEND_DELAY_MS: u64 = 50;

/// Delay between key down and key up in a key press.
pub const KEY_PRESS_DELAY_MS: u64 = 10;

/// Delay bracketing Shift key operations.
pub const SHIFT_KEY_DELAY_MS: u64 = 15;

/// Delay after asking the platform to foreground a window.
pub const WINDOW_FOCUS_DELAY_MS: u64 = 100;

/// Delay between the down and up halves of a Unicode fallback event.
pub const UNICODE_KEY_DELAY_MS: u64 = 5;

/// Delay between sending each line of a batch.
pub const NEXT_LINE_DELAY_MS: u64 = 100;

/// Default application header name shown by the UI.
pub fn default_header_name() -> String {
    "MadTyping - LoL Chat Tool".to_string()
}

/// Default target window title to search for.
pub fn default_window_title() -> String {
    "League of Legends (TM) Client".to_string()
}

} // verus!
