use lx_codex_meter::meter::{CodexMeterStatus, LimitWindow};
use lx_codex_meter::runtime::{millis_to_u64, now_ms, snapshot_from_status, UsageRuntime};
use lx_codex_meter::task_log::{StoredLog, UsageLogPreferences, UsageTaskStore};

fn pct(value: f64) -> i64 {
    (value * 1_000_000.0).round() as i64
}

fn limit(remaining: f64, duration: i64) -> LimitWindow {
    LimitWindow {
        label: String::new(),
        used_percent: Some(pct(100.0 - remaining)),
        remaining_percent: Some(pct(remaining)),
        window_duration_mins: Some(duration),
        resets_at: None,
        reset_text: None,
        reached_type: None,
        semantic_id: None,
        semantic_label: None,
    }
}

fn status(at: u128, weekly: f64, five_hour: f64) -> CodexMeterStatus {
    CodexMeterStatus {
        ok: true,
        message: "OK".to_string(),
        source_mode: "app_server".to_string(),
        auth_mode: None,
        plan_type: None,
        primary: Some(limit(five_hour, 300)),
        secondary: Some(limit(weekly, 10_080)),
        credit_balance: None,
        credit_limit: None,
        reset_credits_available: None,
        updated_at_ms: at,
    }
}

#[test]
fn snapshot_maps_windows_by_duration() {
    let status = CodexMeterStatus {
        ok: true,
        message: "OK".to_string(),
        source_mode: "app_server".to_string(),
        auth_mode: None,
        plan_type: None,
        primary: Some(limit(70.0, 300)),
        secondary: Some(limit(40.0, 10_080)),
        credit_balance: None,
        credit_limit: None,
        reset_credits_available: None,
        updated_at_ms: 123,
    };
    let snapshot = snapshot_from_status(&status).unwrap();
    assert_eq!(snapshot.five_hour_remaining_percent, Some(pct(70.0)));
    assert_eq!(snapshot.weekly_remaining_percent, Some(pct(40.0)));
}

// --- further cases ---

fn runtime() -> UsageRuntime {
    let mut runtime = UsageRuntime::new();
    runtime.initialize_store(UsageTaskStore::load(StoredLog::Missing));
    runtime
}

#[test]
fn snapshot_maps_swapped_slots_by_duration() {
    let mut st = status(5, 40.0, 70.0);
    std::mem::swap(&mut st.primary, &mut st.secondary);
    let snapshot = snapshot_from_status(&st).unwrap();
    assert_eq!(snapshot.five_hour_remaining_percent, Some(pct(70.0)));
    assert_eq!(snapshot.weekly_remaining_percent, Some(pct(40.0)));
    assert_eq!(snapshot.captured_at_ms, 5);
}

#[test]
fn stopping_the_target_owes_one_final_reading() {
    let mut runtime = runtime();
    assert!(!runtime.final_refresh_pending());
    runtime.set_target_running(true);
    assert!(runtime.target_running());
    assert!(!runtime.final_refresh_pending());
    runtime.set_target_running(false);
    assert!(runtime.final_refresh_pending());
    assert!(runtime.take_final_refresh_request());
    assert!(!runtime.take_final_refresh_request());
    runtime.set_target_running(false);
    assert!(!runtime.final_refresh_pending());
}

#[test]
fn recent_readings_are_reused_for_five_seconds() {
    let mut runtime = runtime();
    assert!(runtime.recent_status(1_000).is_none());
    runtime.record_status(status(1_000, 80.0, 60.0), false);
    assert!(runtime.recent_status(1_000).is_some());
    assert!(runtime.recent_status(6_000).is_some());
    assert!(runtime.recent_status(6_001).is_none());
}

#[test]
fn readings_feed_the_log_only_while_the_target_runs() {
    let mut runtime = runtime();
    assert!(runtime.record_status(status(1_000, 80.0, 60.0), false));
    assert!(runtime.record_status(status(2_000, 77.0, 58.0), false));
    assert!(runtime.log_view(2_000).unwrap().tasks.is_empty());

    runtime.set_target_running(true);
    runtime.record_status(status(3_000, 75.0, 55.0), false);
    let view = runtime.log_view(3_000).unwrap();
    assert_eq!(view.tasks.len(), 1);
    assert_eq!(view.tasks[0].task.weekly_consumed_percent, Some(pct(2.0)));
}

#[test]
fn final_consumption_is_allowed_once_stopped() {
    let mut runtime = runtime();
    runtime.record_status(status(1_000, 80.0, 60.0), false);
    runtime.record_status(status(2_000, 78.0, 60.0), true);
    assert_eq!(runtime.log_view(2_000).unwrap().tasks.len(), 1);
    assert!(runtime.finish_for_process_exit(3_000, true));
    let view = runtime.log_view(3_000).unwrap();
    assert!(!view.tasks[0].is_active);
    assert!(!view.tasks[0].task.is_estimated);
}

#[test]
fn readings_that_failed_are_not_logged() {
    let mut runtime = runtime();
    let mut failed = status(1_000, 80.0, 60.0);
    failed.ok = false;
    assert!(!runtime.record_status(failed, true));
    assert!(runtime.store.as_ref().unwrap().data.last_snapshot.is_none());
}

#[test]
fn without_a_log_requests_fail() {
    let mut runtime = UsageRuntime::new();
    assert_eq!(runtime.log_view(0).err().as_deref(), Some("消耗日志后端尚未初始化"));
    assert!(runtime.delete_task("x").is_err());
    assert!(runtime.clear_history().is_err());
    assert!(runtime.save_preferences(UsageLogPreferences::default()).is_err());
    assert!(!runtime.close_idle_task(0));
}

#[test]
fn runtime_warning_shows_when_the_log_has_none() {
    let mut runtime = runtime();
    runtime.set_warning("disk full".to_string());
    assert_eq!(runtime.log_view(0).unwrap().warning.as_deref(), Some("disk full"));
}

#[test]
fn log_edits_go_through_the_runtime() {
    let mut runtime = runtime();
    runtime.set_target_running(true);
    runtime.record_status(status(1_000, 80.0, 60.0), false);
    runtime.record_status(status(2_000, 78.0, 58.0), false);
    assert!(runtime.finish_for_app_exit(3_000));
    let id = runtime.log_view(3_000).unwrap().tasks[0].task.id.clone();
    assert_eq!(runtime.delete_task(&id), Ok(true));
    assert_eq!(runtime.delete_task(&id), Ok(false));
    assert_eq!(runtime.clear_history(), Ok(()));
}

#[test]
fn milliseconds_are_held_to_u64() {
    assert_eq!(millis_to_u64(5), 5);
    assert_eq!(millis_to_u64(u128::MAX), u64::MAX);
    assert!(now_ms() > 1_600_000_000_000);
}

#[test]
fn a_fetch_reuses_the_recent_reading_unless_forced() {
    let mut runtime = runtime();
    assert!(runtime.cached_reading(1_000, false).is_none());
    let (answer, changed) = runtime.finish_fetch(Ok(status(1_000, 80.0, 60.0)), false);
    assert!(answer.unwrap().ok);
    assert!(changed);
    assert!(runtime.cached_reading(2_000, false).is_some());
    assert!(runtime.cached_reading(2_000, true).is_none());
}

#[test]
fn a_failed_fetch_changes_nothing() {
    let mut runtime = runtime();
    let (answer, changed) = runtime.finish_fetch(Err("down".to_string()), true);
    assert_eq!(answer.err().as_deref(), Some("down"));
    assert!(!changed);
    assert!(runtime.latest_status.is_none());
}
