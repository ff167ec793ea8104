use lx_codex_meter::task_log::{
    legacy_schema_version, quota_change, trim_oldest, valid_percent, ActiveUsageTask, StoredLog,
    UsageLogData, UsageLogPreferences, UsageSnapshot, UsageTask, UsageTaskStore, IDLE_TIMEOUT_MS,
    MAX_TASKS, SCHEMA_VERSION,
};

/// A percentage in the library's millionths.
fn pct(value: f64) -> i64 {
    (value * 1_000_000.0).round() as i64
}

fn store() -> UsageTaskStore {
    UsageTaskStore::load(StoredLog::Missing)
}

fn snapshot(at: u64, weekly: f64, five_hour: f64) -> UsageSnapshot {
    UsageSnapshot {
        captured_at_ms: at,
        weekly_remaining_percent: Some(pct(weekly)),
        five_hour_remaining_percent: Some(pct(five_hour)),
    }
}

fn optional_snapshot(at: u64, weekly: Option<f64>, five_hour: Option<f64>) -> UsageSnapshot {
    UsageSnapshot {
        captured_at_ms: at,
        weekly_remaining_percent: weekly.map(pct),
        five_hour_remaining_percent: five_hour.map(pct),
    }
}

fn completed_task(id: usize) -> UsageTask {
    UsageTask {
        id: format!("task-{id}"),
        started_at_ms: id as u64,
        ended_at_ms: id as u64 + 1,
        duration_seconds: 0,
        weekly_consumed_percent: Some(pct(1.0)),
        five_hour_consumed_percent: Some(pct(1.0)),
        end_weekly_remaining_percent: Some(pct(79.0)),
        end_five_hour_remaining_percent: Some(pct(59.0)),
        record_mode: "automatic".to_string(),
        is_complete: true,
        is_estimated: false,
        created_at_ms: id as u64,
        updated_at_ms: id as u64 + 1,
    }
}

fn default_preferences() -> UsageLogPreferences {
    UsageLogPreferences::default()
}

#[test]
fn first_snapshot_only_builds_baseline() {
    let mut store = store();
    store.record_snapshot(snapshot(1_000, 80.0, 60.0), true);
    assert!(store.view(1_000).tasks.is_empty());
}

#[test]
fn weekly_only_snapshot_never_creates_five_hour_consumption() {
    let mut store = store();
    store.record_snapshot(optional_snapshot(1_000, Some(80.0), None), true);
    store.record_snapshot(optional_snapshot(2_000, Some(77.0), None), true);

    let task = &store.view(2_000).tasks[0].task;
    assert_eq!(task.weekly_consumed_percent, Some(pct(3.0)));
    assert_eq!(task.five_hour_consumed_percent, None);
}

#[test]
fn missing_quota_clears_baseline_and_recovery_only_rebuilds_it() {
    let mut store = store();
    store.record_snapshot(optional_snapshot(1_000, Some(80.0), Some(60.0)), true);
    store.record_snapshot(optional_snapshot(2_000, Some(79.0), None), true);
    store.record_snapshot(optional_snapshot(3_000, Some(78.0), Some(55.0)), true);

    let recovered = &store.view(3_000).tasks[0].task;
    assert_eq!(recovered.weekly_consumed_percent, Some(pct(2.0)));
    assert_eq!(recovered.five_hour_consumed_percent, Some(pct(0.0)));

    store.record_snapshot(optional_snapshot(4_000, Some(77.0), Some(53.0)), true);
    let next = &store.view(4_000).tasks[0].task;
    assert_eq!(next.weekly_consumed_percent, Some(pct(3.0)));
    assert_eq!(next.five_hour_consumed_percent, Some(pct(2.0)));
}

#[test]
fn weekly_recovery_does_not_overwrite_five_hour_baseline() {
    let mut store = store();
    store.record_snapshot(optional_snapshot(1_000, None, Some(60.0)), true);
    store.record_snapshot(optional_snapshot(2_000, Some(80.0), Some(58.0)), true);

    let task = &store.view(2_000).tasks[0].task;
    assert_eq!(task.weekly_consumed_percent, Some(pct(0.0)));
    assert_eq!(task.five_hour_consumed_percent, Some(pct(2.0)));
}

#[test]
fn both_missing_then_recovering_rebuilds_both_baselines() {
    let mut store = store();
    store.record_snapshot(optional_snapshot(1_000, Some(80.0), Some(60.0)), true);
    store.record_snapshot(optional_snapshot(2_000, None, None), true);
    store.record_snapshot(optional_snapshot(3_000, Some(70.0), Some(50.0)), true);
    assert!(store.view(3_000).tasks.is_empty());
}

#[test]
fn positive_deltas_create_and_accumulate_one_task() {
    let mut store = store();
    store.record_snapshot(snapshot(1_000, 80.0, 60.0), true);
    store.record_snapshot(snapshot(2_000, 77.0, 55.0), true);
    store.record_snapshot(snapshot(3_000, 76.0, 53.0), true);
    let tasks = store.view(3_000).tasks;
    assert_eq!(tasks.len(), 1);
    assert!(tasks[0].is_active);
    assert!((tasks[0].task.weekly_consumed_percent.unwrap() - pct(4.0)).abs() < 100);
    assert!((tasks[0].task.five_hour_consumed_percent.unwrap() - pct(7.0)).abs() < 100);
    assert_eq!(tasks[0].task.end_weekly_remaining_percent, Some(pct(76.0)));
    assert_eq!(tasks[0].task.end_five_hour_remaining_percent, Some(pct(53.0)));
}

#[test]
fn active_balance_tracks_latest_snapshot_without_new_consumption() {
    let mut store = store();
    store.record_snapshot(snapshot(1_000, 80.0, 60.0), true);
    store.record_snapshot(snapshot(2_000, 77.0, 58.0), true);
    store.record_snapshot(snapshot(3_000, 77.005, 58.005), true);

    let task = &store.view(3_000).tasks[0].task;
    assert_eq!(task.end_weekly_remaining_percent, Some(pct(77.005)));
    assert_eq!(task.end_five_hour_remaining_percent, Some(pct(58.005)));
}

#[test]
fn active_balance_tracks_latest_non_consuming_snapshot() {
    let mut store = store();
    store.record_snapshot(snapshot(1_000, 80.0, 60.0), true);
    store.record_snapshot(snapshot(2_000, 77.0, 58.0), true);
    store.record_snapshot(snapshot(3_000, 74.0, 55.0), false);

    let task = &store.view(3_000).tasks[0].task;
    assert_eq!(task.weekly_consumed_percent, Some(pct(3.0)));
    assert_eq!(task.five_hour_consumed_percent, Some(pct(2.0)));
    assert_eq!(task.end_weekly_remaining_percent, Some(pct(74.0)));
    assert_eq!(task.end_five_hour_remaining_percent, Some(pct(55.0)));
}

#[test]
fn completed_task_keeps_its_stored_end_balance() {
    let mut store = store();
    store.record_snapshot(snapshot(1_000, 80.0, 60.0), true);
    store.record_snapshot(snapshot(2_000, 77.0, 58.0), true);
    store.close_idle_task(2_000 + IDLE_TIMEOUT_MS);
    store.record_snapshot(snapshot(2_000 + IDLE_TIMEOUT_MS + 1_000, 70.0, 50.0), true);

    let task = &store.view(2_000 + IDLE_TIMEOUT_MS + 1_000).tasks[0].task;
    assert_eq!(task.end_weekly_remaining_percent, Some(pct(77.0)));
    assert_eq!(task.end_five_hour_remaining_percent, Some(pct(58.0)));
}

#[test]
fn reset_and_noise_never_create_negative_consumption() {
    let mut store = store();
    store.record_snapshot(snapshot(1_000, 77.0, 50.0), true);
    store.record_snapshot(snapshot(2_000, 100.0, 50.005), true);
    assert!(store.view(2_000).tasks.is_empty());
    store.record_snapshot(snapshot(3_000, 99.0, 49.995), true);
    let task = &store.view(3_000).tasks[0].task;
    assert!((task.weekly_consumed_percent.unwrap() - pct(1.0)).abs() < 100);
    assert!(task.five_hour_consumed_percent.unwrap() >= 0);
}

#[test]
fn reset_finishes_an_active_task_without_negative_delta() {
    let mut store = store();
    store.record_snapshot(snapshot(1_000, 80.0, 60.0), true);
    store.record_snapshot(snapshot(2_000, 77.0, 58.0), true);
    store.record_snapshot(snapshot(3_000, 100.0, 58.0), true);
    let tasks = store.view(3_000).tasks;
    assert_eq!(tasks.len(), 1);
    assert!(!tasks[0].is_active);
    assert_eq!(tasks[0].task.weekly_consumed_percent, Some(pct(3.0)));
}

#[test]
fn idle_timeout_splits_tasks() {
    let mut store = store();
    store.record_snapshot(snapshot(1_000, 80.0, 60.0), true);
    store.record_snapshot(snapshot(2_000, 79.0, 59.0), true);
    assert!(store.close_idle_task(2_000 + IDLE_TIMEOUT_MS));
    store.record_snapshot(snapshot(2_000 + IDLE_TIMEOUT_MS + 1_000, 78.0, 58.0), true);
    let tasks = store.view(2_000 + IDLE_TIMEOUT_MS + 1_000).tasks;
    assert_eq!(tasks.len(), 2);
    assert!(!tasks[0].is_active);
    assert!(tasks[1].is_active);
}

#[test]
fn clear_history_keeps_active_task_and_baseline() {
    let mut store = store();
    let preferences = UsageLogPreferences {
        weekly_filter: "all".to_string(),
        custom_threshold: pct(2.5),
        time_filter: "7d".to_string(),
        sort_mode: "duration".to_string(),
    };
    store.save_preferences(preferences.clone());
    store.record_snapshot(snapshot(1_000, 80.0, 60.0), true);
    store.record_snapshot(snapshot(2_000, 79.0, 59.0), true);
    store.clear_history();
    let view = store.view(2_000);
    assert_eq!(view.tasks.len(), 1);
    assert!(view.tasks[0].is_active);
    assert!(store.data.last_snapshot.is_some());
    assert_eq!(view.preferences, preferences);
}

#[test]
fn delete_removes_only_the_requested_historical_task() {
    let mut store = store();
    store.data.tasks = vec![completed_task(1), completed_task(2)];
    store.record_snapshot(snapshot(1_000, 80.0, 60.0), true);
    store.record_snapshot(snapshot(2_000, 79.0, 59.0), true);

    assert!(store.delete_task("task-1"));
    assert!(!store.delete_task("task-1"));
    assert!(!store.delete_task("task-2000-3"));
    let view = store.view(2_000);
    assert_eq!(view.tasks.len(), 2);
    assert_eq!(view.tasks[0].task.id, "task-2");
    assert!(view.tasks[1].is_active);
}

#[test]
fn restart_recovers_active_task_as_incomplete() {
    let mut store = store();
    store.record_snapshot(snapshot(1_000, 80.0, 60.0), true);
    store.record_snapshot(snapshot(2_000, 79.0, 59.0), true);
    let saved = store.data.clone();
    drop(store);

    let recovered = UsageTaskStore::load(StoredLog::Parsed(saved));
    let tasks = recovered.view(3_000).tasks;
    assert_eq!(tasks.len(), 1);
    assert!(!tasks[0].is_active);
    assert!(!tasks[0].task.is_complete);
    assert!(tasks[0].task.is_estimated);
}

#[test]
fn legacy_schema_preserves_history_closes_active_and_drops_slot_baseline() {
    let legacy = UsageLogData {
        schema_version: 1,
        last_snapshot: Some(snapshot(1_000, 80.0, 60.0)),
        active_task: Some(ActiveUsageTask {
            id: "legacy-active".to_string(),
            started_at_ms: 1_000,
            last_activity_at_ms: 2_000,
            last_observed_at_ms: 2_500,
            weekly_consumed_percent: Some(pct(2.0)),
            five_hour_consumed_percent: Some(pct(3.0)),
            end_weekly_remaining_percent: None,
            end_five_hour_remaining_percent: None,
            created_at_ms: 1_000,
            updated_at_ms: 2_000,
        }),
        tasks: vec![completed_task(1)],
        preferences: default_preferences(),
    };

    let migrated = UsageTaskStore::load(StoredLog::Parsed(legacy));
    assert_eq!(migrated.data.schema_version, SCHEMA_VERSION);
    assert!(migrated.data.last_snapshot.is_none());
    assert!(migrated.data.active_task.is_none());
    assert_eq!(migrated.data.tasks.len(), 2);
    assert!(migrated.data.tasks[0].is_complete);
    assert!(!migrated.data.tasks[1].is_complete);
    assert!(migrated.data.tasks[1].is_estimated);
    assert!(migrated.warning.is_some());
}

#[test]
fn version_two_upgrade_keeps_baseline_and_missing_balances_are_null() {
    let v2 = UsageLogData {
        schema_version: 2,
        last_snapshot: Some(snapshot(1_000, 80.0, 60.0)),
        active_task: None,
        tasks: vec![UsageTask {
            id: "v2-task".to_string(),
            started_at_ms: 1_000,
            ended_at_ms: 2_000,
            duration_seconds: 1,
            weekly_consumed_percent: Some(pct(1.0)),
            five_hour_consumed_percent: Some(pct(2.0)),
            end_weekly_remaining_percent: None,
            end_five_hour_remaining_percent: None,
            record_mode: "automatic".to_string(),
            is_complete: true,
            is_estimated: false,
            created_at_ms: 1_000,
            updated_at_ms: 2_000,
        }],
        preferences: UsageLogPreferences {
            weekly_filter: "gte3".to_string(),
            custom_threshold: pct(3.0),
            time_filter: "30d".to_string(),
            sort_mode: "latest".to_string(),
        },
    };

    let migrated = UsageTaskStore::load(StoredLog::Parsed(v2));
    assert_eq!(migrated.data.schema_version, SCHEMA_VERSION);
    assert!(migrated.data.last_snapshot.is_some());
    assert_eq!(migrated.data.tasks[0].end_weekly_remaining_percent, None);
    assert_eq!(migrated.data.tasks[0].end_five_hour_remaining_percent, None);
}

#[test]
fn task_history_is_trimmed_to_ten_thousand() {
    let mut tasks: Vec<UsageTask> = (0..=MAX_TASKS).map(completed_task).collect();
    trim_oldest(&mut tasks);
    assert_eq!(tasks.len(), MAX_TASKS);
    assert_eq!(tasks.first().unwrap().id, "task-1");
}

#[test]
fn invalid_preferences_fall_back_to_required_defaults() {
    let mut store = store();
    store.save_preferences(UsageLogPreferences {
        weekly_filter: "bad".to_string(),
        custom_threshold: pct(200.0),
        time_filter: "bad".to_string(),
        sort_mode: "bad".to_string(),
    });
    assert_eq!(store.view(1_000).preferences, UsageLogPreferences::default());
}

// --- further cases ---

#[test]
fn corrupt_log_gives_an_empty_log_with_a_warning() {
    let store = UsageTaskStore::load(StoredLog::Corrupt);
    assert!(store.view(1_000).tasks.is_empty());
    assert_eq!(store.view(1_000).warning.as_deref(), Some("消耗日志已损坏，已创建新的空日志"));
}

#[test]
fn unreadable_log_gives_an_empty_log_with_a_warning() {
    let store = UsageTaskStore::load(StoredLog::Unreadable);
    assert!(store.data.tasks.is_empty());
    assert_eq!(store.warning.as_deref(), Some("无法读取消耗日志"));
    assert_eq!(store.data.schema_version, SCHEMA_VERSION);
}

#[test]
fn missing_log_is_empty_and_quiet() {
    let store = store();
    assert!(store.warning.is_none());
    assert!(store.data.last_snapshot.is_none());
    assert!(store.data.active_task.is_none());
    assert_eq!(store.data.preferences, default_preferences());
}

#[test]
fn restart_marks_recovered_task_with_its_own_warning() {
    let mut store = store();
    store.record_snapshot(snapshot(1_000, 80.0, 60.0), true);
    store.record_snapshot(snapshot(2_000, 79.0, 59.0), true);
    let recovered = UsageTaskStore::load(StoredLog::Parsed(store.data.clone()));
    assert_eq!(recovered.warning.as_deref(), Some("上次未结束的任务已标记为不完整"));
    assert_eq!(recovered.data.tasks[0].ended_at_ms, 2_000);
}

#[test]
fn legacy_schema_default_is_one() {
    assert_eq!(legacy_schema_version(), 1);
}

#[test]
fn quota_change_reports_consumption_and_reset() {
    let drop = quota_change(Some(pct(80.0)), Some(pct(77.0)));
    assert_eq!(drop.consumed, pct(3.0));
    assert!(!drop.reset);
    assert_eq!(drop.next_baseline, Some(pct(77.0)));

    let reset = quota_change(Some(pct(77.0)), Some(pct(100.0)));
    assert_eq!(reset.consumed, 0);
    assert!(reset.reset);

    let missing = quota_change(Some(pct(77.0)), None);
    assert_eq!(missing.consumed, 0);
    assert_eq!(missing.next_baseline, None);
}

#[test]
fn valid_percent_rejects_values_outside_the_range() {
    assert_eq!(valid_percent(Some(pct(50.0))), Some(pct(50.0)));
    assert_eq!(valid_percent(Some(pct(100.0))), Some(pct(100.0)));
    assert_eq!(valid_percent(Some(pct(-1.0))), None);
    assert_eq!(valid_percent(Some(pct(101.0))), None);
    assert_eq!(valid_percent(None), None);
}

#[test]
fn process_exit_finishes_the_active_task() {
    let mut store = store();
    store.record_snapshot(snapshot(1_000, 80.0, 60.0), true);
    store.record_snapshot(snapshot(2_000, 79.0, 59.0), true);
    assert!(store.finish_for_process_exit(5_000, true));
    assert!(store.data.active_task.is_none());
    assert_eq!(store.data.tasks.len(), 1);
    assert!(!store.finish_for_process_exit(6_000, true));
}

#[test]
fn app_exit_finishes_the_active_task() {
    let mut store = store();
    store.record_snapshot(snapshot(1_000, 80.0, 60.0), true);
    store.record_snapshot(snapshot(2_000, 79.0, 59.0), true);
    assert!(store.finish_for_app_exit(5_000));
    assert!(store.data.active_task.is_none());
    assert_eq!(store.data.tasks.len(), 1);
}

#[test]
fn idle_task_is_kept_before_the_timeout() {
    let mut store = store();
    store.record_snapshot(snapshot(1_000, 80.0, 60.0), true);
    store.record_snapshot(snapshot(2_000, 79.0, 59.0), true);
    assert!(!store.close_idle_task(2_000 + IDLE_TIMEOUT_MS - 1));
    assert!(store.data.active_task.is_some());
}
