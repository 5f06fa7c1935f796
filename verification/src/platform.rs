//! Window targeting and the message-send decision.
//!
//! Locating a window is a scan over the platform's enumeration of top-level
//! window titles: case-insensitive substring match against the target,
//! stopping at the first hit. The enumeration itself is a platform call that
//! the binary performs; the matching over the titles it hands back is
//! verified here.
//!
//! The sender's decision is pure: given whether the pre-check found the
//! target and whether activation succeeded, it returns either the reason to
//! abort — before any key event is emitted — or the complete event plan for
//! the line. On a platform without a synthetic-input backend, the query
//! functions report success optimistically and the send itself reports that
//! no backend exists, so a failure is descriptive, never a silent no-op.

use vstd::prelude::*;

use crate::encoder::KeyboardLayout;
use crate::events::{plan_line, send_line_actions, InputAction};
use crate::text::{has_substring, lower_of, lowercase, str_contains};

verus! {

/// Why a send failed. Failures at the pre-check or at activation abort
/// before any key event; once typing begins there is nothing to roll back.
#[derive(Clone, Copy, PartialEq, Eq, Structural, Debug)]
pub enum SendError {
    /// No window matching the target title existed at the pre-check.
    TargetNotRunning,
    /// The matching window vanished between pre-check and activation.
    WindowNotFound,
    /// This platform has no synthetic-input backend.
    UnsupportedPlatform,
}

/// The reportable text for each failure, around the target window title.
pub open spec fn spec_message(e: SendError, title: Seq<char>) -> Seq<char> {
    match e {
        SendError::TargetNotRunning => "'"@ + title
            + "' is not running. Please start the application first."@,
        SendError::WindowNotFound => "Window '"@ + title + "' not found."@,
        SendError::UnsupportedPlatform => "Keyboard simulation only supported on Windows"@,
    }
}

impl SendError {
    /// The failure as a descriptive line naming the target window.
    pub fn message(&self, window_title: &str) -> (r: String)
        ensures
            r@ == spec_message(*self, window_title@),
    {
        match self {
            SendError::TargetNotRunning => {
                let mut m = String::from_str("'");
                m.append(window_title);
                m.append("' is not running. Please start the application first.");
                assert(m@ =~= spec_message(*self, window_title@));
                m
            },
            SendError::WindowNotFound => {
                let mut m = String::from_str("Window '");
                m.append(window_title);
                m.append("' not found.");
                assert(m@ =~= spec_message(*self, window_title@));
                m
            },
            SendError::UnsupportedPlatform => {
                String::from_str("Keyboard simulation only supported on Windows")
            },
        }
    }
}

/// A window title matches a target when the folded target occurs in the
/// folded title: case-insensitive substring match.
pub open spec fn title_matches_spec(title: Seq<char>, target: Seq<char>) -> bool {
    has_substring(lower_of(title), lower_of(target))
}

/// Case-insensitive substring match of a target against one window title.
pub fn title_matches(title: &str, target: &str) -> (r: bool)
    ensures
        r == title_matches_spec(title@, target@),
{
    let t = lowercase(title);
    let q = lowercase(target);
    str_contains(t.as_str(), q.as_str())
}

/// The first window whose title matches the target, in the platform's
/// enumeration order — the order is outside this system's control, so the
/// result is only ever the first match of whatever order was handed in.
pub fn find_window(titles: &Vec<String>, target: &str) -> (r: Option<usize>)
    ensures
        match r {
            Some(i) => i < titles@.len() && title_matches_spec(titles@[i as int]@, target@)
                && forall|j: int|
                0 <= j < i ==> !title_matches_spec(#[trigger] titles@[j]@, target@),
            None => forall|j: int|
                0 <= j < titles@.len() ==> !title_matches_spec(#[trigger] titles@[j]@, target@),
        },
{
    let n = titles.len();
    for i in 0..n
        invariant
            n == titles@.len(),
            forall|j: int| 0 <= j < i ==> !title_matches_spec(#[trigger] titles@[j]@, target@),
    {
        if title_matches(titles[i].as_str(), target) {
            return Some(i);
        }
    }
    None
}

/// Whether any enumerated title matches the target: the pre-flight check,
/// performing the same scan without retaining which window matched.
pub fn window_exists(titles: &Vec<String>, target: &str) -> (r: bool)
    ensures
        r == exists|j: int|
            0 <= j < titles@.len() && title_matches_spec(#[trigger] titles@[j]@, target@),
{
    find_window(titles, target).is_some()
}

/// The message-send decision. Given the pre-check result and the activation
/// result, either the reason to abort — with no key event ever emitted — or
/// the complete event plan for the line. A failed pre-check short-circuits:
/// the plan is only built when both checks passed.
pub fn plan_send(
    layout: &KeyboardLayout,
    text: &str,
    window_running: bool,
    activated: bool,
) -> (r: Result<Vec<InputAction>, SendError>)
    ensures
        !window_running ==> r == Err::<Vec<InputAction>, SendError>(SendError::TargetNotRunning),
        window_running && !activated ==> r == Err::<Vec<InputAction>, SendError>(
            SendError::WindowNotFound,
        ),
        window_running && activated ==> (r matches Ok(plan) && plan@ == send_line_actions(
            layout.entries@,
            text@,
        )),
{
    if !window_running {
        Err(SendError::TargetNotRunning)
    } else if !activated {
        Err(SendError::WindowNotFound)
    } else {
        Ok(plan_line(layout, text))
    }
}

/// Whether the target window currently holds keyboard focus. On a platform
/// without a window backend there is nothing to ask: the query reports
/// focused, optimistically.
pub fn is_window_focused(target_title: &str) -> (r: bool)
    ensures
        r,
{
    true
}

/// Whether a window matching the target title exists. On a platform without
/// a window backend there is nothing to scan: the query reports running,
/// optimistically.
pub fn is_window_running(target_title: &str) -> (r: bool)
    ensures
        r,
{
    true
}

/// Bring the matching window to the foreground. On a platform without a
/// window backend there is nothing to move: the call reports success — and
/// doing so twice on an already-foregrounded window succeeds both times.
pub fn focus_window(target_title: &str) -> (r: bool)
    ensures
        r,
{
    true
}

/// Send one line of text to the target application. On a platform without a
/// synthetic-input backend, always the unsupported-platform failure: no key
/// event is ever emitted here, and the caller sees why.
pub fn send_text(text: &str, window_title: &str) -> (r: Result<(), String>)
    ensures
        r matches Err(m) && m@ == spec_message(SendError::UnsupportedPlatform, window_title@),
{
    Err(SendError::UnsupportedPlatform.message(window_title))
}

} // verus!
