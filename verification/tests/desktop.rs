use lx_codex_meter::desktop::{
    classify_codex_process, collector_should_fetch, default_always_on_top, default_auto_update,
    default_refresh_interval_secs, default_show_floating_window, default_show_reset_time, default_source_mode,
    default_taskbar_strip, is_allowed_url, launched_by_autostart, manual_hidden_after_hide, project_url_target,
    refresh_interval_secs, should_collect_usage, should_start_hidden, status_fetch_allowed, tray_labels,
    CodexDetectionResult, WatcherState, APP_VERSION, CONFIRM_POLL_MS, GITEE_RELEASES, GITHUB_URL, IDLE_POLL_MS,
    RUNNING_POLL_MS,
};

#[test]
fn collection_policy_matches_visibility_and_process_matrix() {
    assert!(should_collect_usage(true, false));
    assert!(should_collect_usage(true, true));
    assert!(should_collect_usage(false, true));
    assert!(!should_collect_usage(false, false));
}

#[test]
fn detection_excludes_only_meter_codex_children() {
    let mut result = CodexDetectionResult::default();

    classify_codex_process(&mut result, "codex.exe", true);
    classify_codex_process(&mut result, "Codex.exe", false);
    classify_codex_process(&mut result, "ChatGPT.exe", false);

    assert!(result.running);
    assert_eq!(result.matched_chatgpt, 1);
    assert_eq!(result.matched_codex, 1);
    assert_eq!(result.excluded_meter_children, 1);
}

#[test]
fn detection_ignores_generic_and_helper_processes() {
    let mut result = CodexDetectionResult::default();

    for name in [
        "node.exe",
        "Code.exe",
        "Cursor.exe",
        "codex-code-mode-host.exe",
        "codex-windows-sandbox-setup.exe",
    ] {
        classify_codex_process(&mut result, name, false);
    }

    assert_eq!(result, CodexDetectionResult::default());
}

#[test]
fn meter_child_alone_does_not_mark_codex_running() {
    let mut result = CodexDetectionResult::default();

    classify_codex_process(&mut result, "codex.exe", true);

    assert!(!result.running);
    assert_eq!(result.excluded_meter_children, 1);
}

// --- further cases ---

#[test]
fn a_final_reading_is_taken_even_when_hidden() {
    assert!(status_fetch_allowed(false, false, true));
    assert!(status_fetch_allowed(true, false, false));
    assert!(!status_fetch_allowed(false, false, false));
}

#[test]
fn only_project_links_are_opened() {
    assert!(is_allowed_url(GITHUB_URL));
    assert!(is_allowed_url(GITEE_RELEASES));
    let tag = format!("{GITHUB_URL}/releases/tag/v{APP_VERSION}");
    assert!(is_allowed_url(&tag));
    assert!(!is_allowed_url(&format!("{GITHUB_URL}?x=1")));
    assert!(!is_allowed_url(&format!("{GITHUB_URL}#readme")));
    assert!(!is_allowed_url("https://example.com"));
    assert!(!is_allowed_url(&format!("{GITHUB_URL}/releases/tag/v0.0.1")));

    assert_eq!(project_url_target(None), Ok(GITHUB_URL.to_string()));
    assert_eq!(project_url_target(Some(GITEE_RELEASES)), Ok(GITEE_RELEASES.to_string()));
    assert_eq!(project_url_target(Some("https://evil.test")), Err("unsupported project url".to_string()));
}

#[test]
fn watcher_shows_on_a_new_cycle_and_hides_once_after_two_misses() {
    let mut s = WatcherState::new();
    let start = s.step(true, true, true, false);
    assert!(start.show_window);
    assert!(start.clear_manual_show);
    assert_eq!(start.set_target_running, Some(true));
    assert_eq!(start.sleep_ms, RUNNING_POLL_MS);

    let again = s.step(true, true, true, false);
    assert!(!again.show_window);

    let miss = s.step(false, true, true, false);
    assert!(!miss.hide_window);
    assert_eq!(miss.set_target_running, None);
    assert_eq!(miss.sleep_ms, CONFIRM_POLL_MS);

    let close = s.step(false, true, true, false);
    assert!(close.hide_window);
    assert!(close.clear_manual_hidden);
    assert_eq!(close.set_target_running, Some(false));
    assert_eq!(close.sleep_ms, IDLE_POLL_MS);

    let idle = s.step(false, true, true, false);
    assert!(!idle.hide_window);
}

#[test]
fn watcher_respects_a_manual_hide() {
    let mut s = WatcherState::new();
    let start = s.step(true, true, true, true);
    assert!(!start.show_window);
    let mut off = WatcherState::new();
    assert!(!off.step(true, false, true, false).show_window);
}

#[test]
fn a_single_miss_keeps_the_cycle() {
    let mut s = WatcherState::new();
    s.step(true, true, true, false);
    s.step(false, true, true, false);
    let back = s.step(true, true, true, false);
    assert!(!back.show_window);
    assert!(!back.clear_manual_show);
}

#[test]
fn hiding_records_the_cycle_or_restores_on_failure() {
    assert!(manual_hidden_after_hide(false, true, true));
    assert!(!manual_hidden_after_hide(false, false, true));
    assert!(manual_hidden_after_hide(true, false, false));
}

#[test]
fn start_hidden_needs_the_autostart_argument() {
    let auto = vec!["app".to_string(), "--autostart".to_string()];
    let manual = vec!["app".to_string()];
    assert!(launched_by_autostart(&auto));
    assert!(!launched_by_autostart(&manual));
    assert!(should_start_hidden(true, &auto));
    assert!(!should_start_hidden(true, &manual));
    assert!(!should_start_hidden(false, &auto));
}

#[test]
fn tray_labels_follow_the_language() {
    assert_eq!(tray_labels("en"), ("Refresh", "Settings", "Toggle Strip Mode", "Show / Hide", "Quit"));
    assert_eq!(tray_labels("zh"), ("刷新", "设置", "切换任务栏条模式", "显示 / 隐藏", "退出"));
}

#[test]
fn collector_waits_for_the_interval() {
    assert_eq!(refresh_interval_secs(10), 60);
    assert_eq!(refresh_interval_secs(300), 300);
    assert!(collector_should_fetch(true, false, false, 0, 60_000));
    assert!(!collector_should_fetch(true, false, true, 59_999, 60_000));
    assert!(collector_should_fetch(true, false, true, 60_000, 60_000));
    assert!(!collector_should_fetch(true, true, false, 0, 60_000));
    assert!(!collector_should_fetch(false, false, false, 0, 60_000));
}

#[test]
fn configuration_defaults() {
    assert_eq!(default_refresh_interval_secs(), 300);
    assert!(default_show_floating_window());
    assert!(default_always_on_top());
    assert_eq!(default_source_mode(), "app_server");
    assert!(!default_taskbar_strip());
    assert!(default_show_reset_time());
    assert!(!default_auto_update());
}
