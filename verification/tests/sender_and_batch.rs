use mad_typing::batch::{Batch, BatchAction, BatchStatus};
use mad_typing::encoder::KeyboardLayout;
use mad_typing::events::InputAction;
use mad_typing::platform::{
    find_window, focus_window, is_window_focused, is_window_running, plan_send, send_text,
    title_matches, window_exists, SendError,
};

fn key_event_count(plan: &[InputAction]) -> usize {
    plan.iter()
        .filter(|a| !matches!(a, InputAction::SleepMs(_)))
        .count()
}

#[test]
fn failed_precheck_short_circuits_before_any_key_event() {
    let layout = KeyboardLayout::empty();
    let mut events_performed = 0usize;
    let r = plan_send(&layout, "hello", false, true);
    match r {
        Err(e) => assert_eq!(e, SendError::TargetNotRunning),
        Ok(plan) => {
            // never reached: counting keeps the mock honest
            events_performed += key_event_count(&plan);
        }
    }
    assert_eq!(events_performed, 0);
}

#[test]
fn failed_activation_reports_window_not_found() {
    let layout = KeyboardLayout::empty();
    let r = plan_send(&layout, "hello", true, false);
    assert_eq!(r.unwrap_err(), SendError::WindowNotFound);
}

#[test]
fn successful_checks_yield_the_full_plan() {
    let layout = KeyboardLayout::empty();
    let plan = plan_send(&layout, "ab", true, true).unwrap();
    // chat-open press (2) + two unicode pairs (4) + submit press (2)
    assert_eq!(key_event_count(&plan), 10);
}

#[test]
fn error_messages_name_the_target() {
    assert_eq!(
        SendError::TargetNotRunning.message("Game"),
        "'Game' is not running. Please start the application first."
    );
    assert_eq!(SendError::WindowNotFound.message("Game"), "Window 'Game' not found.");
    assert_eq!(
        SendError::UnsupportedPlatform.message("Game"),
        "Keyboard simulation only supported on Windows"
    );
}

#[test]
fn title_matching_is_case_insensitive_substring() {
    assert!(title_matches("League of Legends (TM) Client", "league"));
    assert!(title_matches("my editor", "EDIT"));
    assert!(!title_matches("calculator", "editor"));
}

#[test]
fn find_window_returns_the_first_match() {
    let titles = vec![
        "terminal".to_string(),
        "The Game - lobby".to_string(),
        "the game - match".to_string(),
    ];
    assert_eq!(find_window(&titles, "game"), Some(1));
    assert_eq!(find_window(&titles, "missing"), None);
    assert!(window_exists(&titles, "TERMINAL"));
    assert!(!window_exists(&titles, "browser"));
}

#[test]
fn platform_stubs_behave_as_documented() {
    // activation is idempotent: both calls succeed
    assert!(focus_window("anything"));
    assert!(focus_window("anything"));
    assert!(is_window_running("anything"));
    assert!(is_window_focused("anything"));
    let r = send_text("hi", "Game");
    assert_eq!(r.unwrap_err(), "Keyboard simulation only supported on Windows");
}

#[test]
fn batch_cancel_after_two_lines_sends_exactly_two() {
    let mut batch = Batch::new(5);
    let mut sent_lines = 0usize;
    let mut step = 0usize;
    loop {
        // cancel signal injected after the second line completes
        if step == 2 {
            batch.cancel();
        }
        match batch.next_action() {
            BatchAction::Send(i) => {
                assert_eq!(i, sent_lines);
                sent_lines += 1;
                batch.record_success();
            }
            BatchAction::Stop => break,
        }
        step += 1;
    }
    assert_eq!(sent_lines, 2);
    assert_eq!(batch.status, BatchStatus::Cancelled);
}

#[test]
fn batch_failure_aborts_everything() {
    let mut batch = Batch::new(3);
    assert_eq!(batch.next_action(), BatchAction::Send(0));
    batch.record_success();
    batch.record_failure();
    assert_eq!(batch.next_action(), BatchAction::Stop);
    assert_eq!(batch.status, BatchStatus::Failed);
    assert_eq!(batch.sent, 1);
}

#[test]
fn batch_runs_to_completion() {
    let mut batch = Batch::new(2);
    batch.record_success();
    batch.record_success();
    assert_eq!(batch.status, BatchStatus::Completed);
    assert_eq!(batch.next_action(), BatchAction::Stop);
    // cancelling a finished batch leaves it completed
    batch.cancel();
    assert_eq!(batch.status, BatchStatus::Completed);
}

#[test]
fn empty_batch_is_complete_at_once() {
    let batch = Batch::new(0);
    assert_eq!(batch.status, BatchStatus::Completed);
    assert_eq!(batch.next_action(), BatchAction::Stop);
}
