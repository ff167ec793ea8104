//! Properties of the usage task log that hold across its operations.
use vstd::prelude::*;
use crate::fixed::later;
use crate::task_log::{
    TaskModel, ActiveTaskModel, LogModel, PreferencesModel, UsageSnapshot, StoredLog, MAX_TASKS, SCHEMA_VERSION,
    FIRST_KIND_SCHEMA, trimmed, finished_task, with_active_finished, quota_change_spec, validated,
    record_snapshot_spec, valid_percent_spec, accumulated, id_taken, fresh_task_id, is_first_free_suffix,
    task_id_text, lemma_taken_suffixes_bounded, without_id, preferences_valid, normalized_preferences,
    recovered, migrated, read_log, idle_expired, idle_end_time, exit_end_time,
};

verus! {

/// An optional total is absent or not negative.
pub open spec fn nonnegative(total: Option<i64>) -> bool {
    match total {
        Some(t) => t >= 0,
        None => true,
    }
}

pub open spec fn task_sound(t: TaskModel) -> bool {
    &&& t.started_at_ms <= t.ended_at_ms
    &&& nonnegative(t.weekly_consumed_percent)
    &&& nonnegative(t.five_hour_consumed_percent)
}

pub open spec fn active_sound(a: ActiveTaskModel) -> bool {
    &&& a.started_at_ms <= a.last_activity_at_ms
    &&& nonnegative(a.weekly_consumed_percent)
    &&& nonnegative(a.five_hour_consumed_percent)
}

/// What every log produced by this library satisfies: a bounded history,
/// tasks that never end before they start, and no negative consumption.
pub open spec fn log_invariant(log: LogModel) -> bool {
    &&& log.tasks.len() <= MAX_TASKS
    &&& forall|i: int| 0 <= i < log.tasks.len() ==> task_sound(#[trigger] log.tasks[i])
    &&& match log.active_task {
        Some(a) => active_sound(a),
        None => true,
    }
}

proof fn lemma_trimmed_keeps(tasks: Seq<TaskModel>)
    requires
        forall|i: int| 0 <= i < tasks.len() ==> task_sound(#[trigger] tasks[i]),
    ensures
        trimmed(tasks).len() <= MAX_TASKS || trimmed(tasks).len() == tasks.len(),
        tasks.len() <= MAX_TASKS + 1 ==> trimmed(tasks).len() <= MAX_TASKS,
        forall|i: int| 0 <= i < trimmed(tasks).len() ==> task_sound(#[trigger] trimmed(tasks)[i]),
{
    if tasks.len() > MAX_TASKS {
        let k = tasks.len() - MAX_TASKS;
        assert forall|i: int| 0 <= i < trimmed(tasks).len() implies task_sound(#[trigger] trimmed(tasks)[i]) by {
            assert(trimmed(tasks)[i] == tasks[i + k]);
        }
    }
}

/// Finishing the active task keeps the invariant.
pub proof fn lemma_finish_keeps_invariant(log: LogModel, ended_at_ms: u64, is_complete: bool, is_estimated: bool)
    requires
        log_invariant(log),
    ensures
        log_invariant(with_active_finished(log, ended_at_ms, is_complete, is_estimated)),
{
    if let Some(a) = log.active_task {
        let pushed = log.tasks.push(finished_task(a, ended_at_ms, is_complete, is_estimated));
        assert forall|i: int| 0 <= i < pushed.len() implies task_sound(#[trigger] pushed[i]) by {
            if i < log.tasks.len() {
                assert(pushed[i] == log.tasks[i]);
            }
        }
        lemma_trimmed_keeps(pushed);
    }
}

proof fn lemma_change_nonnegative(previous: Option<i64>, current: Option<i64>)
    ensures
        quota_change_spec(previous, current).consumed >= 0,
{
}

/// Recording a snapshot keeps the invariant: in particular a quota reset, a
/// missing quota or noise never makes any consumption negative.
pub proof fn lemma_record_keeps_invariant(log: LogModel, snapshot: UsageSnapshot, allow_consumption: bool)
    requires
        log_invariant(log),
    ensures
        log_invariant(record_snapshot_spec(log, snapshot, allow_consumption)),
{
    let cur = validated(snapshot);
    if let Some(prev) = log.last_snapshot {
        if allow_consumption {
            let weekly = quota_change_spec(prev.weekly_remaining_percent, cur.weekly_remaining_percent);
            let five_hour = quota_change_spec(prev.five_hour_remaining_percent, cur.five_hour_remaining_percent);
            lemma_change_nonnegative(prev.weekly_remaining_percent, cur.weekly_remaining_percent);
            lemma_change_nonnegative(prev.five_hour_remaining_percent, cur.five_hour_remaining_percent);
            let l1 = if weekly.reset || five_hour.reset {
                with_active_finished(log, cur.captured_at_ms, true, false)
            } else {
                log
            };
            lemma_finish_keeps_invariant(log, cur.captured_at_ms, true, false);
            assert(log_invariant(l1));
        }
    }
}

/// A task is only created or grown when consumption is allowed: without
/// permission the history and every consumption total stay as they were.
pub proof fn lemma_no_consumption_without_permission(log: LogModel, snapshot: UsageSnapshot)
    ensures
        ({
            let next = record_snapshot_spec(log, snapshot, false);
            &&& next.tasks == log.tasks
            &&& next.active_task is Some <==> log.active_task is Some
            &&& (log.active_task matches Some(a) ==> {
                let b = next.active_task->Some_0;
                &&& b.id == a.id
                &&& b.weekly_consumed_percent == a.weekly_consumed_percent
                &&& b.five_hour_consumed_percent == a.five_hour_consumed_percent
                &&& b.last_activity_at_ms == a.last_activity_at_ms
            })
        }),
{
}

/// The first snapshot only sets the baseline: no task is created or changed.
pub proof fn lemma_first_snapshot_only_sets_baseline(log: LogModel, snapshot: UsageSnapshot, allow_consumption: bool)
    requires
        log.last_snapshot is None,
    ensures
        record_snapshot_spec(log, snapshot, allow_consumption).tasks == log.tasks,
        record_snapshot_spec(log, snapshot, allow_consumption).active_task == log.active_task,
        record_snapshot_spec(log, snapshot, allow_consumption).last_snapshot == Some(validated(snapshot)),
{
}

/// Each quota keeps its own baseline: a quota that is missing in the snapshot
/// loses its baseline (it is rebuilt by the next snapshot that has it), and the
/// other quota's baseline is decided by that quota alone.
pub proof fn lemma_baselines_are_per_quota(log: LogModel, snapshot: UsageSnapshot)
    requires
        log.last_snapshot is Some,
    ensures
        ({
            let prev = log.last_snapshot->Some_0;
            let next = record_snapshot_spec(log, snapshot, true).last_snapshot->Some_0;
            &&& next.weekly_remaining_percent == quota_change_spec(
                prev.weekly_remaining_percent,
                snapshot.weekly_remaining_percent,
            ).next_baseline
            &&& next.five_hour_remaining_percent == quota_change_spec(
                prev.five_hour_remaining_percent,
                snapshot.five_hour_remaining_percent,
            ).next_baseline
            &&& valid_percent_spec(snapshot.weekly_remaining_percent) is None ==> next.weekly_remaining_percent is None
            &&& valid_percent_spec(snapshot.five_hour_remaining_percent) is None ==> next.five_hour_remaining_percent is None
        }),
{
}

/// A quota that returns from missing only rebuilds its baseline: it adds no
/// consumption.
pub proof fn lemma_recovery_only_rebuilds(previous: Option<i64>, current: Option<i64>)
    requires
        valid_percent_spec(previous) is None,
    ensures
        quota_change_spec(previous, current).consumed == 0,
        quota_change_spec(previous, current).reset == false,
        quota_change_spec(previous, current).next_baseline == valid_percent_spec(current),
{
}

/// With an active task and no reset, consumption on a quota is added to that
/// task's total (held at `i64::MAX`).
pub proof fn lemma_consumption_accumulates(log: LogModel, snapshot: UsageSnapshot)
    requires
        log.last_snapshot is Some,
        log.active_task is Some,
        !quota_change_spec(log.last_snapshot->Some_0.weekly_remaining_percent, snapshot.weekly_remaining_percent).reset,
        !quota_change_spec(log.last_snapshot->Some_0.five_hour_remaining_percent, snapshot.five_hour_remaining_percent).reset,
    ensures
        ({
            let prev = log.last_snapshot->Some_0;
            let weekly = quota_change_spec(prev.weekly_remaining_percent, snapshot.weekly_remaining_percent);
            let five_hour = quota_change_spec(prev.five_hour_remaining_percent, snapshot.five_hour_remaining_percent);
            let a = log.active_task->Some_0;
            let b = record_snapshot_spec(log, snapshot, true).active_task->Some_0;
            &&& record_snapshot_spec(log, snapshot, true).tasks == log.tasks
            &&& b.id == a.id
            &&& (weekly.consumed > 0 || five_hour.consumed > 0) ==> {
                &&& b.weekly_consumed_percent == accumulated(a.weekly_consumed_percent, weekly)
                &&& b.five_hour_consumed_percent == accumulated(a.five_hour_consumed_percent, five_hour)
            }
        }),
{
}

/// A quota reset finishes the active task as a complete task at the time of
/// the snapshot, before any new consumption is counted.
pub proof fn lemma_reset_finishes_active(log: LogModel, snapshot: UsageSnapshot)
    requires
        log.last_snapshot is Some,
        log.active_task is Some,
        quota_change_spec(log.last_snapshot->Some_0.weekly_remaining_percent, snapshot.weekly_remaining_percent).reset
            || quota_change_spec(log.last_snapshot->Some_0.five_hour_remaining_percent, snapshot.five_hour_remaining_percent).reset,
        log.tasks.len() < MAX_TASKS,
    ensures
        record_snapshot_spec(log, snapshot, true).tasks == log.tasks.push(
            finished_task(log.active_task->Some_0, snapshot.captured_at_ms, true, false),
        ),
{
}

/// There is always a first free suffix, so a new task always gets an id that
/// no historical task has: `task-<start>-<n>` for the least `n` from the
/// number of historical tasks plus one on whose id is not taken.
pub proof fn lemma_fresh_id_is_unused(ms: nat, tasks: Seq<TaskModel>)
    ensures
        !id_taken(tasks, fresh_task_id(ms, tasks)),
        exists|n: nat|
            #[trigger] is_first_free_suffix(ms, tasks, n) && fresh_task_id(ms, tasks) == task_id_text(ms, n),
{
    lemma_first_free_exists(ms, tasks, tasks.len() + 1);
    let k = choose|k: nat| is_first_free_suffix(ms, tasks, k);
    assert(is_first_free_suffix(ms, tasks, k));
}

proof fn lemma_first_free_exists(ms: nat, tasks: Seq<TaskModel>, k: nat)
    requires
        tasks.len() + 1 <= k <= 2 * tasks.len() + 1,
        forall|j: nat| tasks.len() + 1 <= j < k ==> id_taken(tasks, #[trigger] task_id_text(ms, j)),
    ensures
        exists|s: nat| is_first_free_suffix(ms, tasks, s),
    decreases 2 * tasks.len() + 1 - k,
{
    if !id_taken(tasks, task_id_text(ms, k)) {
        assert(is_first_free_suffix(ms, tasks, k));
    } else {
        assert forall|j: nat| tasks.len() + 1 <= j < k + 1 implies id_taken(tasks, #[trigger] task_id_text(ms, j)) by {}
        lemma_taken_suffixes_bounded(ms, tasks, tasks.len() + 1, k + 1);
        lemma_first_free_exists(ms, tasks, k + 1);
    }
}

/// Deleting by id removes exactly the historical tasks with that id and keeps
/// every other task.
pub proof fn lemma_delete_removes_only_that_id(tasks: Seq<TaskModel>, id: Seq<char>)
    ensures
        forall|t: TaskModel| #[trigger] without_id(tasks, id).contains(t) <==> (tasks.contains(t) && t.id != id),
    decreases tasks.len(),
{
    if tasks.len() > 0 {
        let rest = tasks.drop_last();
        let l = tasks.last();
        lemma_delete_removes_only_that_id(rest, id);
        let r = without_id(rest, id);
        assert(tasks =~= rest.push(l));
        lemma_push_contains(rest, l);
        lemma_push_contains(r, l);
        if l.id == id {
            assert(without_id(tasks, id) == r);
        } else {
            assert(without_id(tasks, id) == r.push(l));
        }
    }
}

proof fn lemma_push_contains(s: Seq<TaskModel>, x: TaskModel)
    ensures
        forall|t: TaskModel| #[trigger] s.push(x).contains(t) <==> (s.contains(t) || t == x),
{
    assert forall|t: TaskModel| #[trigger] s.push(x).contains(t) <==> (s.contains(t) || t == x) by {
        if s.push(x).contains(t) {
            let i = choose|i: int| 0 <= i < s.push(x).len() && s.push(x)[i] == t;
            if i < s.len() {
                assert(s[i] == t);
            }
        }
        if s.contains(t) {
            let i = choose|i: int| 0 <= i < s.len() && s[i] == t;
            assert(s.push(x)[i] == t);
        }
        if t == x {
            assert(s.push(x)[s.len() as int] == t);
        }
    }
}

/// Normalized preferences are always valid, and valid preferences are kept as they are.
pub proof fn lemma_normalized_preferences(p: PreferencesModel)
    ensures
        preferences_valid(normalized_preferences(p)),
        preferences_valid(p) ==> normalized_preferences(p) == p,
{
}

/// After loading, no task is active any more: a task left active by the
/// previous run is the newest history entry, marked incomplete and estimated,
/// and the log is at least at the current schema.
pub proof fn lemma_load_recovers_active(stored: StoredLog)
    ensures
        recovered(migrated(read_log(stored))).active_task is None,
        recovered(migrated(read_log(stored))).schema_version >= SCHEMA_VERSION,
        ({
            let l = migrated(read_log(stored));
            let r = recovered(l);
            l.active_task is Some && l.tasks.len() < MAX_TASKS ==> {
                &&& r.tasks.len() == l.tasks.len() + 1
                &&& !r.tasks.last().is_complete
                &&& r.tasks.last().is_estimated
                &&& r.tasks.last().id == l.active_task->Some_0.id
            }
        }),
{
    let l = migrated(read_log(stored));
    if let Some(a) = l.active_task {
        let ended = later(later(a.last_observed_at_ms, a.last_activity_at_ms), a.started_at_ms);
        let pushed = l.tasks.push(finished_task(a, ended, false, true));
        assert(pushed.last() == finished_task(a, ended, false, true));
    }
}

/// A log whose history from disk is within bounds loads into a log that
/// satisfies the invariant, and the migrated schema of a pre-kind log drops
/// its baseline.
pub proof fn lemma_load_keeps_invariant(stored: StoredLog)
    requires
        log_invariant(read_log(stored)),
    ensures
        log_invariant(recovered(migrated(read_log(stored)))),
        read_log(stored).schema_version < FIRST_KIND_SCHEMA ==> recovered(migrated(read_log(stored))).last_snapshot is None,
{
    let l = migrated(read_log(stored));
    assert(log_invariant(l));
    if let Some(a) = l.active_task {
        let ended = later(later(a.last_observed_at_ms, a.last_activity_at_ms), a.started_at_ms);
        lemma_finish_keeps_invariant(l, ended, false, true);
    }
}

/// Deleting, clearing and saving preferences keep the invariant.
pub proof fn lemma_edits_keep_invariant(log: LogModel, id: Seq<char>, p: PreferencesModel)
    requires
        log_invariant(log),
    ensures
        log_invariant(LogModel { tasks: without_id(log.tasks, id), ..log }),
        log_invariant(LogModel { tasks: Seq::empty(), ..log }),
        log_invariant(LogModel { preferences: normalized_preferences(p), ..log }),
{
    lemma_without_id_sub(log.tasks, id);
}

proof fn lemma_without_id_sub(tasks: Seq<TaskModel>, id: Seq<char>)
    requires
        forall|i: int| 0 <= i < tasks.len() ==> task_sound(#[trigger] tasks[i]),
    ensures
        without_id(tasks, id).len() <= tasks.len(),
        forall|i: int| 0 <= i < without_id(tasks, id).len() ==> task_sound(#[trigger] without_id(tasks, id)[i]),
    decreases tasks.len(),
{
    if tasks.len() > 0 {
        let rest = tasks.drop_last();
        assert forall|i: int| 0 <= i < rest.len() implies task_sound(#[trigger] rest[i]) by {
            assert(rest[i] == tasks[i]);
        }
        lemma_without_id_sub(rest, id);
        let r = without_id(rest, id);
        assert(task_sound(tasks[tasks.len() - 1]));
        assert forall|i: int| 0 <= i < without_id(tasks, id).len() implies task_sound(#[trigger] without_id(tasks, id)[i]) by {
            if tasks.last().id != id && i == r.len() {
                assert(without_id(tasks, id)[i] == tasks.last());
            } else {
                assert(without_id(tasks, id)[i] == r[i]);
            }
        }
    }
}

/// Closing an idle task and finishing on exit leave no active task.
pub proof fn lemma_closing_leaves_no_active(log: LogModel, ended_at_ms: u64, is_complete: bool, is_estimated: bool)
    ensures
        with_active_finished(log, ended_at_ms, is_complete, is_estimated).active_task is None,
        with_active_finished(log, ended_at_ms, is_complete, is_estimated).last_snapshot == log.last_snapshot,
{
}


proof fn lemma_finished_is_last(log: LogModel, ended_at_ms: u64, is_complete: bool, is_estimated: bool)
    requires
        log_invariant(log),
        log.active_task is Some,
    ensures
        ({
            let after = with_active_finished(log, ended_at_ms, is_complete, is_estimated);
            &&& after.active_task is None
            &&& after.tasks.len() >= 1
            &&& after.tasks.last() == finished_task(log.active_task->Some_0, ended_at_ms, is_complete, is_estimated)
        }),
{
    let a = log.active_task->Some_0;
    let pushed = log.tasks.push(finished_task(a, ended_at_ms, is_complete, is_estimated));
    if pushed.len() > MAX_TASKS {
        let t = trimmed(pushed);
        assert(t.last() == pushed.last());
    }
}

/// Closing an idle task ends it at its last consumption: the task moved to
/// history ends at the active task's last activity and lasts from its start
/// to then, however long the meter went on observing it without
/// consumption; it is complete and not estimated, and no task stays active.
pub proof fn lemma_idle_close_ends_at_last_activity(log: LogModel, now_ms: u64)
    requires
        log_invariant(log),
        idle_expired(log, now_ms),
    ensures
        ({
            let a = log.active_task->Some_0;
            let after = with_active_finished(log, idle_end_time(log), true, false);
            &&& after.active_task is None
            &&& after.tasks.len() >= 1
            &&& after.tasks.last().id == a.id
            &&& after.tasks.last().started_at_ms == a.started_at_ms
            &&& after.tasks.last().ended_at_ms == a.last_activity_at_ms
            &&& after.tasks.last().duration_seconds == (a.last_activity_at_ms - a.started_at_ms) / 1000
            &&& after.tasks.last().is_complete
            &&& !after.tasks.last().is_estimated
        }),
{
    lemma_finished_is_last(log, idle_end_time(log), true, false);
}

/// When the watched process or the app exits, the active task ends at the
/// later of its last observation and its last activity: the time it was last
/// seen, consuming or not.
pub proof fn lemma_exit_ends_at_last_sighting(log: LogModel, is_complete: bool, is_estimated: bool)
    requires
        log_invariant(log),
        log.active_task is Some,
    ensures
        ({
            let a = log.active_task->Some_0;
            let after = with_active_finished(log, exit_end_time(log), is_complete, is_estimated);
            &&& after.active_task is None
            &&& after.tasks.last().ended_at_ms >= a.last_activity_at_ms
            &&& after.tasks.last().ended_at_ms >= a.last_observed_at_ms
            &&& (after.tasks.last().ended_at_ms == a.last_activity_at_ms || after.tasks.last().ended_at_ms
                == a.last_observed_at_ms)
        }),
{
    lemma_finished_is_last(log, exit_end_time(log), is_complete, is_estimated);
}

} // verus!
