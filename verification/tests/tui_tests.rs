use recommender::recommender::ResourceRecommendation;
use recommender::tui::{
    completion_message, get_change_indicator, selected_recommendations, AppMode, AppState,
    ChangeDirection, KeyInput, ProgressUpdate, UiAction,
};
use recommender::UsageStats;

fn recommendation_named(container: &str) -> ResourceRecommendation {
    let zero = UsageStats { min: 0, max: 0, avg: 0, p50: 0, p95: 0, p99: 0 };
    ResourceRecommendation {
        deployment: "checkout".to_string(),
        container: container.to_string(),
        namespace: "prod".to_string(),
        current_cpu_request: "not set".to_string(),
        current_cpu_limit: "not set".to_string(),
        current_memory_request: "not set".to_string(),
        current_memory_limit: "not set".to_string(),
        recommended_cpu_request: "1m".to_string(),
        recommended_cpu_limit: "1m".to_string(),
        recommended_memory_request: "1Mi".to_string(),
        recommended_memory_limit: "1Mi".to_string(),
        cpu_usage_stats: zero,
        memory_usage_stats: zero,
        recommendation_reason: String::new(),
    }
}

fn browse_defaults() -> (Option<String>, Option<String>, Option<String>) {
    (None, None, None)
}

fn press(state: &mut AppState, key: KeyInput) -> UiAction {
    let (url, token, user) = browse_defaults();
    state.handle_key(key, &url, &token, &user, "main")
}

#[test]
fn initial_state_selects_everything() {
    let state = AppState::new(3);
    assert_eq!(state.total, 3);
    assert_eq!(state.cursor, 0);
    assert_eq!(state.selected, vec![true, true, true]);
    assert!(matches!(state.mode, AppMode::BrowsingTable));
}

#[test]
fn navigation_wraps_around_the_table() {
    let mut state = AppState::new(3);
    press(&mut state, KeyInput::Up);
    assert_eq!(state.cursor, 2);
    press(&mut state, KeyInput::Down);
    assert_eq!(state.cursor, 0);
    press(&mut state, KeyInput::Down);
    assert_eq!(state.cursor, 1);
}

#[test]
fn selection_toggles_and_bulk_updates() {
    let mut state = AppState::new(3);
    press(&mut state, KeyInput::Character(' '));
    assert_eq!(state.selected, vec![false, true, true]);
    press(&mut state, KeyInput::Character('n'));
    assert_eq!(state.selected, vec![false, false, false]);
    // With nothing selected, Enter stays in browsing.
    press(&mut state, KeyInput::Enter);
    assert!(matches!(state.mode, AppMode::BrowsingTable));
    press(&mut state, KeyInput::Character('a'));
    assert_eq!(state.selected, vec![true, true, true]);
    press(&mut state, KeyInput::Enter);
    assert!(matches!(state.mode, AppMode::ConfirmApply));
}

#[test]
fn quit_keys_leave_the_loop() {
    let mut state = AppState::new(1);
    assert!(matches!(press(&mut state, KeyInput::Character('q')), UiAction::Quit));
    assert!(matches!(press(&mut state, KeyInput::Esc), UiAction::Quit));
}

#[test]
fn confirm_no_returns_to_browsing() {
    let mut state = AppState::new(1);
    press(&mut state, KeyInput::Enter);
    assert!(matches!(state.mode, AppMode::ConfirmApply));
    press(&mut state, KeyInput::Character('n'));
    assert!(matches!(state.mode, AppMode::BrowsingTable));
}

#[test]
fn full_input_chain_starts_the_apply_run() {
    let mut state = AppState::new(1);
    press(&mut state, KeyInput::Enter);
    press(&mut state, KeyInput::Character('y'));
    assert!(matches!(state.mode, AppMode::InputUrl));
    for c in "https://github.com/acme/shop".chars() {
        press(&mut state, KeyInput::Character(c));
    }
    press(&mut state, KeyInput::Enter);
    assert!(matches!(state.mode, AppMode::InputToken));
    for c in "SECRET-REDACTED".chars() {
        press(&mut state, KeyInput::Character(c));
    }
    press(&mut state, KeyInput::Enter);
    assert!(matches!(state.mode, AppMode::InputUsername));
    press(&mut state, KeyInput::Enter); // empty username stays None
    assert!(matches!(state.mode, AppMode::InputBranch));
    assert_eq!(state.input_buffer, "main"); // pre-filled from the defaults
    for _ in 0..4 {
        press(&mut state, KeyInput::Backspace);
    }
    for c in "release".chars() {
        press(&mut state, KeyInput::Character(c));
    }
    let action = press(&mut state, KeyInput::Enter);
    match action {
        UiAction::StartApply { url, branch, username, token } => {
            assert_eq!(url, "https://github.com/acme/shop");
            assert_eq!(branch, "release");
            assert!(username.is_none());
            assert_eq!(token.as_deref(), Some("SECRET-REDACTED"));
        }
        _ => panic!("expected the apply run to start"),
    }
    match &state.mode {
        AppMode::Applying { progress, stage } => {
            assert_eq!(*progress, 0);
            assert_eq!(stage, "Initializing...");
        }
        other => panic!("unexpected mode: {:?}", other),
    }
}

#[test]
fn invalid_url_re_renders_the_same_field() {
    let mut state = AppState::new(1);
    press(&mut state, KeyInput::Enter);
    press(&mut state, KeyInput::Character('y'));
    for c in "not a url".chars() {
        press(&mut state, KeyInput::Character(c));
    }
    press(&mut state, KeyInput::Enter);
    assert!(matches!(state.mode, AppMode::InputUrl));
    let error = state.error_message.as_deref().expect("an error is shown");
    assert!(error.starts_with("Invalid URL: "));
}

#[test]
fn input_editing_and_cancel() {
    let mut state = AppState::new(1);
    press(&mut state, KeyInput::Enter);
    press(&mut state, KeyInput::Character('y'));
    press(&mut state, KeyInput::Character('x'));
    press(&mut state, KeyInput::Character('y'));
    assert_eq!(state.input_buffer, "xy");
    press(&mut state, KeyInput::Backspace);
    assert_eq!(state.input_buffer, "x");
    press(&mut state, KeyInput::Esc);
    assert!(matches!(state.mode, AppMode::BrowsingTable));
    assert_eq!(state.input_buffer, "");
}

#[test]
fn progress_messages_drive_the_dialog() {
    let mut state = AppState::new(1);
    state.handle_progress(ProgressUpdate::Stage { progress: 30, message: "Cloning repository...".to_string() });
    match &state.mode {
        AppMode::Applying { progress, stage } => {
            assert_eq!(*progress, 30);
            assert_eq!(stage, "Cloning repository...");
        }
        other => panic!("unexpected mode: {:?}", other),
    }
    state.handle_progress(ProgressUpdate::Complete {
        pr_url: Some("https://github.com/acme/shop/pull/7".to_string()),
        message: "done".to_string(),
    });
    match &state.mode {
        AppMode::ShowResult { message, pr_url } => {
            assert_eq!(message, "done");
            assert_eq!(pr_url.as_deref(), Some("https://github.com/acme/shop/pull/7"));
        }
        other => panic!("unexpected mode: {:?}", other),
    }
    assert!(matches!(press(&mut state, KeyInput::Character('z')), UiAction::Quit));
}

#[test]
fn worker_error_shows_without_a_pull_request_url() {
    let mut state = AppState::new(1);
    state.handle_progress(ProgressUpdate::Error { message: "clone failed".to_string() });
    match &state.mode {
        AppMode::ShowResult { message, pr_url } => {
            assert_eq!(message, "clone failed");
            assert!(pr_url.is_none());
        }
        other => panic!("unexpected mode: {:?}", other),
    }
}

#[test]
fn change_indicator_compares_quantities() {
    assert_eq!(get_change_indicator("100m", "180m"), ChangeDirection::Increased);
    assert_eq!(get_change_indicator("500m", "180m"), ChangeDirection::Decreased);
    assert_eq!(get_change_indicator("1Gi", "512Mi"), ChangeDirection::Decreased);
    assert_eq!(get_change_indicator("256Mi", "0.5Gi"), ChangeDirection::Increased);
    assert_eq!(get_change_indicator("180m", "180m"), ChangeDirection::Unchanged);
    assert_eq!(get_change_indicator("not set", "180m"), ChangeDirection::Unchanged);
    assert_eq!(get_change_indicator("1", "1000m"), ChangeDirection::Unchanged);
}

#[test]
fn only_selected_rows_reach_the_apply_run() {
    let recs = vec![
        recommendation_named("app"),
        recommendation_named("sidecar"),
        recommendation_named("proxy"),
    ];
    let flags = vec![true, false, true];
    let picked = selected_recommendations(recs, &flags);
    assert_eq!(picked.len(), 2);
    assert_eq!(picked[0].container, "app");
    assert_eq!(picked[1].container, "proxy");
    let none = selected_recommendations(
        vec![recommendation_named("app")],
        &vec![false],
    );
    assert!(none.is_empty());
}

#[test]
fn invalid_url_keeps_the_collected_values_and_buffer() {
    let mut state = AppState::new(1);
    press(&mut state, KeyInput::Enter);
    press(&mut state, KeyInput::Character('y'));
    for c in "not a url".chars() {
        press(&mut state, KeyInput::Character(c));
    }
    press(&mut state, KeyInput::Enter);
    assert!(matches!(state.mode, AppMode::InputUrl));
    assert_eq!(state.input_buffer, "not a url");
    assert!(state.collected_url.is_none());
    assert_eq!(state.selected, vec![true]);
}

#[test]
fn completion_message_names_count_and_branch() {
    assert_eq!(
        completion_message(2, "autorightsizing-1"),
        "Successfully applied 2 recommendation(s) to branch 'autorightsizing-1'"
    );
}
