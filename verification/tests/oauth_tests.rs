use tasksync::oauth::{parse_oauth_callback, CallbackError};
use tasksync::startup::{startup_decision, window_startup_action, StartupAction, WindowAction};
use tasksync::timestamp::timestamp_ge;

#[test]
fn code_between_marker_and_ampersand_is_extracted() {
    let r = parse_oauth_callback("oob?code=abc123&scope=calendar", "oob");
    assert_eq!(r.unwrap(), "abc123");
}

#[test]
fn code_at_the_end_runs_to_the_end() {
    let r = parse_oauth_callback("oob?state=x&code=zz9", "oob");
    assert_eq!(r.unwrap(), "zz9");
}

#[test]
fn callback_without_code_is_rejected() {
    let r = parse_oauth_callback("oob?error=access_denied", "oob");
    assert_eq!(r.unwrap_err(), CallbackError::MissingCode);
}

#[test]
fn callback_for_another_redirect_is_rejected() {
    let r = parse_oauth_callback("https://elsewhere/?code=abc", "oob");
    assert_eq!(r.unwrap_err(), CallbackError::InvalidRedirect);
}

#[test]
fn empty_code_is_extracted_as_empty() {
    let r = parse_oauth_callback("oob?code=&scope=x", "oob");
    assert_eq!(r.unwrap(), "");
}

#[test]
fn second_instance_exits_cleanly() {
    assert_eq!(startup_decision(false), StartupAction::ExitCleanly);
    assert_eq!(startup_decision(true), StartupAction::RunApp);
}

#[test]
fn existing_window_is_focused_not_duplicated() {
    assert_eq!(window_startup_action(true), WindowAction::FocusExisting);
    assert_eq!(window_startup_action(false), WindowAction::CreateNew);
}

#[test]
fn rfc3339_strings_order_chronologically() {
    assert!(timestamp_ge("2024-01-02T00:00:00Z", "2024-01-01T00:00:00Z"));
    assert!(!timestamp_ge("2024-01-01T00:00:00Z", "2024-01-02T00:00:00Z"));
    assert!(timestamp_ge("2024-01-01T00:00:00Z", "2024-01-01T00:00:00Z"));
    assert!(timestamp_ge("2024-01-01T00:00:01Z", "2024-01-01T00:00:00Z"));
    assert!(timestamp_ge("2025-01-01T00:00:00Z", "2024-12-31T23:59:59Z"));
    assert!(timestamp_ge("", ""));
    assert!(!timestamp_ge("", "2024-01-01T00:00:00Z"));
    assert!(timestamp_ge("2024-01-01T00:00:00Z", ""));
}
