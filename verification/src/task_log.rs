//! The usage task log: a sequence of quota snapshots is turned into "tasks",
//! stretches of work during which the 5-hour and weekly quotas went down.
//!
//! Percentages are fixed-point millionths (see `fixed`). Reading and writing
//! the log file is the caller's part: `load` takes what was read, and every
//! other operation changes the in-memory log, which the caller then saves.
use vstd::prelude::*;
use crate::fixed::{later, later_of, add_capped, add_capped_of, HUNDRED_PERCENT};
use crate::text::{
    chars_of, string_from_chars, copy_string, copy_opt_string, opt_chars, decimal, decimal_chars,
    str_eq, lemma_decimal_injective,
};

verus! {

broadcast use vstd::string::group_string_axioms;

/// Version of the log layout written by this library.
pub const SCHEMA_VERSION: u32 = 3;
/// Number of finished tasks kept; older ones are dropped first.
pub const MAX_TASKS: usize = 10_000;
/// Smallest decrease (0.01 percent) that counts as consumption.
pub const MIN_CONSUMPTION_PERCENT: i64 = 10_000;
/// Smallest increase (10 percent) that can mark a quota reset.
pub const RESET_INCREASE_PERCENT: i64 = 10_000_000;
/// A quota reset must bring the remaining quota to at least 90 percent.
pub const RESET_FLOOR_PERCENT: i64 = 90_000_000;
/// Default threshold (3 percent) of the "custom" weekly filter.
pub const DEFAULT_CUSTOM_THRESHOLD: i64 = 3_000_000;
/// An active task with no consumption for ten minutes is closed.
pub const IDLE_TIMEOUT_MS: u64 = 600_000;

/// Remaining quotas observed at one moment.
#[derive(Debug, Clone, Copy, PartialEq, Eq)]
pub struct UsageSnapshot {
    pub captured_at_ms: u64,
    pub weekly_remaining_percent: Option<i64>,
    pub five_hour_remaining_percent: Option<i64>,
}

/// A finished (historical) task.
#[derive(Debug, Clone, PartialEq)]
pub struct UsageTask {
    pub id: String,
    pub started_at_ms: u64,
    pub ended_at_ms: u64,
    pub duration_seconds: u64,
    pub weekly_consumed_percent: Option<i64>,
    pub five_hour_consumed_percent: Option<i64>,
    pub end_weekly_remaining_percent: Option<i64>,
    pub end_five_hour_remaining_percent: Option<i64>,
    pub record_mode: String,
    pub is_complete: bool,
    pub is_estimated: bool,
    pub created_at_ms: u64,
    pub updated_at_ms: u64,
}

/// The task that is still collecting consumption.
#[derive(Debug, Clone, PartialEq)]
pub struct ActiveUsageTask {
    pub id: String,
    pub started_at_ms: u64,
    pub last_activity_at_ms: u64,
    pub last_observed_at_ms: u64,
    pub weekly_consumed_percent: Option<i64>,
    pub five_hour_consumed_percent: Option<i64>,
    pub end_weekly_remaining_percent: Option<i64>,
    pub end_five_hour_remaining_percent: Option<i64>,
    pub created_at_ms: u64,
    pub updated_at_ms: u64,
}

/// How the task list is filtered and sorted on screen.
#[derive(Debug, Clone, PartialEq)]
pub struct UsageLogPreferences {
    pub weekly_filter: String,
    /// Threshold of the "custom" weekly filter, in millionths of a percent.
    pub custom_threshold: i64,
    pub time_filter: String,
    pub sort_mode: String,
}

/// Everything the log file holds.
#[derive(Debug, Clone)]
pub struct UsageLogData {
    pub schema_version: u32,
    pub last_snapshot: Option<UsageSnapshot>,
    pub active_task: Option<ActiveUsageTask>,
    pub tasks: Vec<UsageTask>,
    pub preferences: UsageLogPreferences,
}

/// A task as shown on screen.
#[derive(Debug, Clone)]
pub struct UsageTaskView {
    pub task: UsageTask,
    pub is_active: bool,
}

/// The whole log as shown on screen.
#[derive(Debug, Clone)]
pub struct UsageLogView {
    pub tasks: Vec<UsageTaskView>,
    pub preferences: UsageLogPreferences,
    pub warning: Option<String>,
}

/// What reading the log file gave.
pub enum StoredLog {
    /// There is no log file yet.
    Missing,
    /// The file was read and parsed.
    Parsed(UsageLogData),
    /// The file exists but could not be read.
    Unreadable,
    /// The file was read but is not a valid log.
    Corrupt,
}

/// The in-memory usage log and the warning to show with it.
pub struct UsageTaskStore {
    pub data: UsageLogData,
    pub warning: Option<String>,
}

// ---------------------------------------------------------------------------
// Mathematical model
// ---------------------------------------------------------------------------

/// The model of a finished task.
pub struct TaskModel {
    pub id: Seq<char>,
    pub started_at_ms: u64,
    pub ended_at_ms: u64,
    pub duration_seconds: u64,
    pub weekly_consumed_percent: Option<i64>,
    pub five_hour_consumed_percent: Option<i64>,
    pub end_weekly_remaining_percent: Option<i64>,
    pub end_five_hour_remaining_percent: Option<i64>,
    pub record_mode: Seq<char>,
    pub is_complete: bool,
    pub is_estimated: bool,
    pub created_at_ms: u64,
    pub updated_at_ms: u64,
}

/// The model of the active task.
pub struct ActiveTaskModel {
    pub id: Seq<char>,
    pub started_at_ms: u64,
    pub last_activity_at_ms: u64,
    pub last_observed_at_ms: u64,
    pub weekly_consumed_percent: Option<i64>,
    pub five_hour_consumed_percent: Option<i64>,
    pub end_weekly_remaining_percent: Option<i64>,
    pub end_five_hour_remaining_percent: Option<i64>,
    pub created_at_ms: u64,
    pub updated_at_ms: u64,
}

/// The model of the list preferences.
pub struct PreferencesModel {
    pub weekly_filter: Seq<char>,
    pub custom_threshold: i64,
    pub time_filter: Seq<char>,
    pub sort_mode: Seq<char>,
}

/// The model of the whole log.
pub struct LogModel {
    pub schema_version: u32,
    pub last_snapshot: Option<UsageSnapshot>,
    pub active_task: Option<ActiveTaskModel>,
    pub tasks: Seq<TaskModel>,
    pub preferences: PreferencesModel,
}

/// The model of a task as shown.
pub struct TaskViewModel {
    pub task: TaskModel,
    pub is_active: bool,
}

impl View for UsageTask {
    type V = TaskModel;

    open spec fn view(&self) -> TaskModel {
        TaskModel {
            id: self.id@,
            started_at_ms: self.started_at_ms,
            ended_at_ms: self.ended_at_ms,
            duration_seconds: self.duration_seconds,
            weekly_consumed_percent: self.weekly_consumed_percent,
            five_hour_consumed_percent: self.five_hour_consumed_percent,
            end_weekly_remaining_percent: self.end_weekly_remaining_percent,
            end_five_hour_remaining_percent: self.end_five_hour_remaining_percent,
            record_mode: self.record_mode@,
            is_complete: self.is_complete,
            is_estimated: self.is_estimated,
            created_at_ms: self.created_at_ms,
            updated_at_ms: self.updated_at_ms,
        }
    }
}

impl View for ActiveUsageTask {
    type V = ActiveTaskModel;

    open spec fn view(&self) -> ActiveTaskModel {
        ActiveTaskModel {
            id: self.id@,
            started_at_ms: self.started_at_ms,
            last_activity_at_ms: self.last_activity_at_ms,
            last_observed_at_ms: self.last_observed_at_ms,
            weekly_consumed_percent: self.weekly_consumed_percent,
            five_hour_consumed_percent: self.five_hour_consumed_percent,
            end_weekly_remaining_percent: self.end_weekly_remaining_percent,
            end_five_hour_remaining_percent: self.end_five_hour_remaining_percent,
            created_at_ms: self.created_at_ms,
            updated_at_ms: self.updated_at_ms,
        }
    }
}

impl View for UsageLogPreferences {
    type V = PreferencesModel;

    open spec fn view(&self) -> PreferencesModel {
        PreferencesModel {
            weekly_filter: self.weekly_filter@,
            custom_threshold: self.custom_threshold,
            time_filter: self.time_filter@,
            sort_mode: self.sort_mode@,
        }
    }
}

pub open spec fn active_model(a: Option<ActiveUsageTask>) -> Option<ActiveTaskModel> {
    match a {
        Some(t) => Some(t@),
        None => None,
    }
}

impl View for UsageLogData {
    type V = LogModel;

    open spec fn view(&self) -> LogModel {
        LogModel {
            schema_version: self.schema_version,
            last_snapshot: self.last_snapshot,
            active_task: active_model(self.active_task),
            tasks: self.tasks@.map_values(|t: UsageTask| t@),
            preferences: self.preferences@,
        }
    }
}

impl View for UsageTaskView {
    type V = TaskViewModel;

    open spec fn view(&self) -> TaskViewModel {
        TaskViewModel { task: self.task@, is_active: self.is_active }
    }
}

/// A percentage is usable when it lies between 0 and 100 percent.
pub open spec fn valid_percent_spec(value: Option<i64>) -> Option<i64> {
    match value {
        Some(p) => if 0 <= p <= HUNDRED_PERCENT { Some(p) } else { None },
        None => None,
    }
}

/// How one quota moved between two snapshots.
#[derive(Debug, Clone, Copy)]
pub struct QuotaChange {
    /// The decrease that counts as consumption (never negative).
    pub consumed: i64,
    /// The quota jumped back up: the quota period was reset.
    pub reset: bool,
    /// The baseline to compare the next snapshot against.
    pub next_baseline: Option<i64>,
    /// The current snapshot has a usable value for this quota.
    pub available: bool,
}

/// What one quota did between the baseline and a new snapshot: a drop of
/// at least `MIN_CONSUMPTION_PERCENT` is consumption; a rise of at least
/// `RESET_INCREASE_PERCENT` to at least `RESET_FLOOR_PERCENT` is a reset;
/// anything smaller is noise and keeps the baseline. A missing or invalid
/// current value clears the baseline; a missing baseline is rebuilt from the
/// current value without consumption.
pub open spec fn quota_change_spec(previous: Option<i64>, current: Option<i64>) -> QuotaChange {
    let previous = valid_percent_spec(previous);
    let current = valid_percent_spec(current);
    match current {
        None => QuotaChange { consumed: 0, reset: false, next_baseline: None, available: false },
        Some(c) => match previous {
            None => QuotaChange { consumed: 0, reset: false, next_baseline: Some(c), available: true },
            Some(p) => if p - c >= MIN_CONSUMPTION_PERCENT {
                QuotaChange { consumed: (p - c) as i64, reset: false, next_baseline: Some(c), available: true }
            } else {
                let reset = c - p >= RESET_INCREASE_PERCENT && c >= RESET_FLOOR_PERCENT;
                QuotaChange {
                    consumed: 0,
                    reset,
                    next_baseline: Some(if reset { c } else { p }),
                    available: true,
                }
            },
        },
    }
}

pub open spec fn automatic_mode() -> Seq<char> {
    "automatic"@
}

pub open spec fn finished_task(a: ActiveTaskModel, ended_at_ms: u64, is_complete: bool, is_estimated: bool) -> TaskModel {
    let ended = later(ended_at_ms, a.started_at_ms);
    TaskModel {
        id: a.id,
        started_at_ms: a.started_at_ms,
        ended_at_ms: ended,
        duration_seconds: ((ended - a.started_at_ms) / 1000) as u64,
        weekly_consumed_percent: a.weekly_consumed_percent,
        five_hour_consumed_percent: a.five_hour_consumed_percent,
        end_weekly_remaining_percent: a.end_weekly_remaining_percent,
        end_five_hour_remaining_percent: a.end_five_hour_remaining_percent,
        record_mode: automatic_mode(),
        is_complete,
        is_estimated,
        created_at_ms: a.created_at_ms,
        updated_at_ms: ended,
    }
}

pub open spec fn active_task_view(a: ActiveTaskModel, now_ms: u64) -> TaskViewModel {
    let ended = later(later(now_ms, a.last_activity_at_ms), a.started_at_ms);
    TaskViewModel {
        task: TaskModel {
            id: a.id,
            started_at_ms: a.started_at_ms,
            ended_at_ms: ended,
            duration_seconds: ((ended - a.started_at_ms) / 1000) as u64,
            weekly_consumed_percent: a.weekly_consumed_percent,
            five_hour_consumed_percent: a.five_hour_consumed_percent,
            end_weekly_remaining_percent: a.end_weekly_remaining_percent,
            end_five_hour_remaining_percent: a.end_five_hour_remaining_percent,
            record_mode: automatic_mode(),
            is_complete: false,
            is_estimated: false,
            created_at_ms: a.created_at_ms,
            updated_at_ms: a.updated_at_ms,
        },
        is_active: true,
    }
}

/// The newest `MAX_TASKS` tasks.
pub open spec fn trimmed(tasks: Seq<TaskModel>) -> Seq<TaskModel> {
    if tasks.len() > MAX_TASKS {
        tasks.skip(tasks.len() - MAX_TASKS)
    } else {
        tasks
    }
}

/// The log after the active task (if any) is finished and moved to history.
pub open spec fn with_active_finished(log: LogModel, ended_at_ms: u64, is_complete: bool, is_estimated: bool) -> LogModel {
    match log.active_task {
        Some(a) => LogModel {
            active_task: None,
            tasks: trimmed(log.tasks.push(finished_task(a, ended_at_ms, is_complete, is_estimated))),
            ..log
        },
        None => log,
    }
}

/// `task-{started_at_ms}-{suffix}`.
pub open spec fn task_id_text(started_at_ms: nat, suffix: nat) -> Seq<char> {
    "task-"@ + decimal(started_at_ms) + "-"@ + decimal(suffix)
}

pub open spec fn id_taken(tasks: Seq<TaskModel>, id: Seq<char>) -> bool {
    exists|i: int| 0 <= i < tasks.len() && tasks[i].id == id
}

/// `suffix` is the first number from `tasks.len() + 1` on whose id is not yet used.
pub open spec fn is_first_free_suffix(started_at_ms: nat, tasks: Seq<TaskModel>, suffix: nat) -> bool {
    &&& suffix >= tasks.len() + 1
    &&& !id_taken(tasks, task_id_text(started_at_ms, suffix))
    &&& forall|j: nat| tasks.len() + 1 <= j < suffix ==> id_taken(tasks, #[trigger] task_id_text(started_at_ms, j))
}

/// The id given to a new task that starts at `started_at_ms`.
pub open spec fn fresh_task_id(started_at_ms: nat, tasks: Seq<TaskModel>) -> Seq<char> {
    task_id_text(started_at_ms, choose|k: nat| is_first_free_suffix(started_at_ms, tasks, k))
}

pub open spec fn new_active_task(
    id: Seq<char>,
    captured_at_ms: u64,
    weekly: QuotaChange,
    five_hour: QuotaChange,
    end_weekly: Option<i64>,
    end_five_hour: Option<i64>,
) -> ActiveTaskModel {
    ActiveTaskModel {
        id,
        started_at_ms: captured_at_ms,
        last_activity_at_ms: captured_at_ms,
        last_observed_at_ms: captured_at_ms,
        weekly_consumed_percent: if weekly.available { Some(0) } else { None },
        five_hour_consumed_percent: if five_hour.available { Some(0) } else { None },
        end_weekly_remaining_percent: end_weekly,
        end_five_hour_remaining_percent: end_five_hour,
        created_at_ms: captured_at_ms,
        updated_at_ms: captured_at_ms,
    }
}

/// A consumption total after `change` is added to it.
pub open spec fn accumulated(total: Option<i64>, change: QuotaChange) -> Option<i64> {
    if change.available {
        match total {
            Some(t) => Some(add_capped(t, change.consumed)),
            None => Some(add_capped(0, change.consumed)),
        }
    } else {
        total
    }
}

/// The log after consumption is added to the active task, which is opened if there is none.
pub open spec fn with_consumption(
    log: LogModel,
    captured_at_ms: u64,
    weekly: QuotaChange,
    five_hour: QuotaChange,
    end_weekly: Option<i64>,
    end_five_hour: Option<i64>,
) -> LogModel {
    let base = match log.active_task {
        Some(a) => a,
        None => new_active_task(
            fresh_task_id(captured_at_ms as nat, log.tasks),
            captured_at_ms,
            weekly,
            five_hour,
            end_weekly,
            end_five_hour,
        ),
    };
    LogModel {
        active_task: Some(ActiveTaskModel {
            weekly_consumed_percent: accumulated(base.weekly_consumed_percent, weekly),
            five_hour_consumed_percent: accumulated(base.five_hour_consumed_percent, five_hour),
            last_activity_at_ms: later(captured_at_ms, base.last_activity_at_ms),
            updated_at_ms: later(captured_at_ms, base.updated_at_ms),
            ..base
        }),
        ..log
    }
}

/// The log after the active task (if any) records the latest balances.
pub open spec fn with_observation(
    log: LogModel,
    captured_at_ms: u64,
    end_weekly: Option<i64>,
    end_five_hour: Option<i64>,
) -> LogModel {
    match log.active_task {
        Some(a) => LogModel {
            active_task: Some(ActiveTaskModel {
                last_observed_at_ms: later(captured_at_ms, a.last_observed_at_ms),
                end_weekly_remaining_percent: end_weekly,
                end_five_hour_remaining_percent: end_five_hour,
                ..a
            }),
            ..log
        },
        None => log,
    }
}

/// The snapshot with unusable percentages removed.
pub open spec fn validated(s: UsageSnapshot) -> UsageSnapshot {
    UsageSnapshot {
        captured_at_ms: s.captured_at_ms,
        weekly_remaining_percent: valid_percent_spec(s.weekly_remaining_percent),
        five_hour_remaining_percent: valid_percent_spec(s.five_hour_remaining_percent),
    }
}

/// The log after one snapshot is recorded.
pub open spec fn record_snapshot_spec(log: LogModel, snapshot: UsageSnapshot, allow_consumption: bool) -> LogModel {
    let cur = validated(snapshot);
    match log.last_snapshot {
        None => LogModel { last_snapshot: Some(cur), ..log },
        Some(prev) => if !allow_consumption {
            LogModel {
                last_snapshot: Some(cur),
                ..with_observation(log, cur.captured_at_ms, cur.weekly_remaining_percent, cur.five_hour_remaining_percent)
            }
        } else {
            let weekly = quota_change_spec(prev.weekly_remaining_percent, cur.weekly_remaining_percent);
            let five_hour = quota_change_spec(prev.five_hour_remaining_percent, cur.five_hour_remaining_percent);
            let l1 = if weekly.reset || five_hour.reset {
                with_active_finished(log, cur.captured_at_ms, true, false)
            } else {
                log
            };
            let l2 = if weekly.consumed > 0 || five_hour.consumed > 0 {
                with_consumption(l1, cur.captured_at_ms, weekly, five_hour, cur.weekly_remaining_percent, cur.five_hour_remaining_percent)
            } else {
                l1
            };
            let l3 = with_observation(l2, cur.captured_at_ms, cur.weekly_remaining_percent, cur.five_hour_remaining_percent);
            LogModel {
                last_snapshot: Some(UsageSnapshot {
                    captured_at_ms: cur.captured_at_ms,
                    weekly_remaining_percent: weekly.next_baseline,
                    five_hour_remaining_percent: five_hour.next_baseline,
                }),
                ..l3
            }
        },
    }
}


// ---------------------------------------------------------------------------
// Task ids
// ---------------------------------------------------------------------------

proof fn lemma_task_id_injective(ms: nat, a: nat, b: nat)
    requires
        task_id_text(ms, a) == task_id_text(ms, b),
    ensures
        a == b,
{
    let p = "task-"@ + decimal(ms) + "-"@;
    assert(task_id_text(ms, a) == p + decimal(a));
    assert(task_id_text(ms, b) == p + decimal(b));
    assert((p + decimal(a)).skip(p.len() as int) =~= decimal(a));
    assert((p + decimal(b)).skip(p.len() as int) =~= decimal(b));
    lemma_decimal_injective(a, b);
}

/// At most `tasks.len()` distinct suffixes can all be taken.
pub proof fn lemma_taken_suffixes_bounded(ms: nat, tasks: Seq<TaskModel>, lo: nat, hi: nat)
    requires
        lo <= hi,
        forall|j: nat| lo <= j < hi ==> id_taken(tasks, #[trigger] task_id_text(ms, j)),
    ensures
        hi - lo <= tasks.len(),
{
    let f = |j: int| task_id_text(ms, j as nat);
    let x = vstd::set_lib::set_int_range(lo as int, hi as int);
    vstd::set_lib::lemma_int_range(lo as int, hi as int);
    let ids_seq = tasks.map_values(|t: TaskModel| t.id);
    let ids = ids_seq.to_set();
    let y = x.map(f);
    assert(vstd::relations::injective_on(f, x)) by {
        assert forall|a: int, b: int| x.contains(a) && x.contains(b) && #[trigger] f(a) == #[trigger] f(b) implies a == b by {
            lemma_task_id_injective(ms, a as nat, b as nat);
        }
    }
    vstd::set_lib::lemma_map_size(x, y, f);
    assert(y.subset_of(ids)) by {
        assert forall|id: Seq<char>| y.contains(id) implies ids.contains(id) by {
            let j = choose|j: int| x.contains(j) && id == f(j);
            assert(lo <= (j as nat) < hi);
            assert(id_taken(tasks, task_id_text(ms, j as nat)));
            let i = choose|i: int| 0 <= i < tasks.len() && tasks[i].id == task_id_text(ms, j as nat);
            assert(ids_seq[i] == id);
            assert(ids_seq.contains(id));
        }
    }
    vstd::seq_lib::seq_to_set_is_finite(ids_seq);
    vstd::set_lib::lemma_len_subset(y, ids);
    ids_seq.lemma_cardinality_of_set();
}

proof fn lemma_first_free_is_chosen(ms: nat, tasks: Seq<TaskModel>, k: nat)
    requires
        is_first_free_suffix(ms, tasks, k),
    ensures
        fresh_task_id(ms, tasks) == task_id_text(ms, k),
{
    let c = choose|c: nat| is_first_free_suffix(ms, tasks, c);
    assert(is_first_free_suffix(ms, tasks, c));
    if c < k {
        assert(id_taken(tasks, task_id_text(ms, c)));
    } else if c > k {
        assert(id_taken(tasks, task_id_text(ms, k)));
    }
}

/// The characters of `task-{started_at_ms}-{suffix}`.
fn task_id_chars(started_at_ms: u64, suffix: u128) -> (v: Vec<char>)
    ensures
        v@ == task_id_text(started_at_ms as nat, suffix as nat),
{
    let mut v = chars_of("task-");
    let mut ms = decimal_chars(started_at_ms as u128);
    v.append(&mut ms);
    let mut dash = chars_of("-");
    v.append(&mut dash);
    let mut tail = decimal_chars(suffix);
    v.append(&mut tail);
    v
}

/// Whether some task has the id `id`.
fn has_task_id(tasks: &Vec<UsageTask>, id: &Vec<char>) -> (r: bool)
    ensures
        r == id_taken(tasks@.map_values(|t: UsageTask| t@), id@),
{
    let ghost model = tasks@.map_values(|t: UsageTask| t@);
    let mut i: usize = 0;
    while i < tasks.len()
        invariant
            model == tasks@.map_values(|t: UsageTask| t@),
            i <= tasks@.len(),
            forall|j: int| 0 <= j < i ==> model[j].id != id@,
        decreases tasks@.len() - i,
    {
        let existing = chars_of(tasks[i].id.as_str());
        if crate::text::chars_eq(&existing, id) {
            assert(model[i as int].id == id@);
            return true;
        }
        i = i + 1;
    }
    false
}

/// The id for a new task: `task-{started_at_ms}-{n}` with the first `n` from
/// `tasks.len() + 1` on that no historical task uses.
fn unique_task_id(started_at_ms: u64, tasks: &Vec<UsageTask>) -> (id: String)
    ensures
        id@ == fresh_task_id(started_at_ms as nat, tasks@.map_values(|t: UsageTask| t@)),
        !id_taken(tasks@.map_values(|t: UsageTask| t@), id@),
{
    let ghost model = tasks@.map_values(|t: UsageTask| t@);
    let n = tasks.len();
    let mut suffix: u128 = n as u128 + 1;
    loop
        invariant
            model == tasks@.map_values(|t: UsageTask| t@),
            n == model.len(),
            n + 1 <= suffix <= 2 * n + 1,
            forall|j: nat| n + 1 <= j < suffix ==> id_taken(model, #[trigger] task_id_text(started_at_ms as nat, j)),
        decreases 2 * n + 1 - suffix,
    {
        let candidate = task_id_chars(started_at_ms, suffix);
        if !has_task_id(tasks, &candidate) {
            proof {
                assert(is_first_free_suffix(started_at_ms as nat, model, suffix as nat));
                lemma_first_free_is_chosen(started_at_ms as nat, model, suffix as nat);
            }
            return string_from_chars(&candidate);
        }
        proof {
            assert forall|j: nat| n + 1 <= j < suffix + 1 implies id_taken(model, #[trigger] task_id_text(started_at_ms as nat, j)) by {
                if j == suffix {
                } 
            }
            lemma_taken_suffixes_bounded(started_at_ms as nat, model, (n + 1) as nat, (suffix + 1) as nat);
        }
        suffix = suffix + 1;
    }
}


// ---------------------------------------------------------------------------
// Quota changes and tasks
// ---------------------------------------------------------------------------

/// Keeps a percentage only when it lies between 0 and 100 percent.
pub fn valid_percent(value: Option<i64>) -> (r: Option<i64>)
    ensures
        r == valid_percent_spec(value),
{
    match value {
        Some(p) => if 0 <= p && p <= HUNDRED_PERCENT { Some(p) } else { None },
        None => None,
    }
}

/// How one quota moved from `previous` to `current`: a decrease of at least
/// 0.01 percent is consumption; a jump of at least 10 percent that reaches 90
/// percent or more is a reset; smaller moves keep the previous baseline.
pub fn quota_change(previous: Option<i64>, current: Option<i64>) -> (change: QuotaChange)
    ensures
        change == quota_change_spec(previous, current),
{
    let previous = valid_percent(previous);
    let current = valid_percent(current);
    let current = match current {
        None => {
            return QuotaChange { consumed: 0, reset: false, next_baseline: None, available: false };
        },
        Some(c) => c,
    };
    let previous = match previous {
        None => {
            return QuotaChange { consumed: 0, reset: false, next_baseline: Some(current), available: true };
        },
        Some(p) => p,
    };
    let decrease = previous - current;
    if decrease >= MIN_CONSUMPTION_PERCENT {
        return QuotaChange { consumed: decrease, reset: false, next_baseline: Some(current), available: true };
    }
    let increase = current - previous;
    let reset = increase >= RESET_INCREASE_PERCENT && current >= RESET_FLOOR_PERCENT;
    QuotaChange {
        consumed: 0,
        reset,
        next_baseline: Some(if reset { current } else { previous }),
        available: true,
    }
}

/// The snapshot itself, kept as the baseline for the next one.
fn replace_baselines(current: UsageSnapshot) -> (r: UsageSnapshot)
    ensures
        r == current,
{
    UsageSnapshot {
        captured_at_ms: current.captured_at_ms,
        weekly_remaining_percent: current.weekly_remaining_percent,
        five_hour_remaining_percent: current.five_hour_remaining_percent,
    }
}

fn automatic_record_mode() -> (s: String)
    ensures
        s@ == automatic_mode(),
{
    "automatic".to_string()
}

impl UsageTask {
    /// A copy of the task.
    pub fn duplicate(&self) -> (r: UsageTask)
        ensures
            r@ == self@,
    {
        UsageTask {
            id: copy_string(&self.id),
            started_at_ms: self.started_at_ms,
            ended_at_ms: self.ended_at_ms,
            duration_seconds: self.duration_seconds,
            weekly_consumed_percent: self.weekly_consumed_percent,
            five_hour_consumed_percent: self.five_hour_consumed_percent,
            end_weekly_remaining_percent: self.end_weekly_remaining_percent,
            end_five_hour_remaining_percent: self.end_five_hour_remaining_percent,
            record_mode: copy_string(&self.record_mode),
            is_complete: self.is_complete,
            is_estimated: self.is_estimated,
            created_at_ms: self.created_at_ms,
            updated_at_ms: self.updated_at_ms,
        }
    }
}

impl ActiveUsageTask {
    /// The active task as shown at `now_ms`: it ends at the latest of `now_ms`,
    /// its last activity and its start.
    pub fn as_view(&self, now_ms: u64) -> (v: UsageTaskView)
        ensures
            v@ == active_task_view(self@, now_ms),
    {
        let ended_at_ms = later_of(later_of(now_ms, self.last_activity_at_ms), self.started_at_ms);
        UsageTaskView {
            task: UsageTask {
                id: copy_string(&self.id),
                started_at_ms: self.started_at_ms,
                ended_at_ms,
                duration_seconds: (ended_at_ms - self.started_at_ms) / 1000,
                weekly_consumed_percent: self.weekly_consumed_percent,
                five_hour_consumed_percent: self.five_hour_consumed_percent,
                end_weekly_remaining_percent: self.end_weekly_remaining_percent,
                end_five_hour_remaining_percent: self.end_five_hour_remaining_percent,
                record_mode: automatic_record_mode(),
                is_complete: false,
                is_estimated: false,
                created_at_ms: self.created_at_ms,
                updated_at_ms: self.updated_at_ms,
            },
            is_active: true,
        }
    }

    /// The finished task; it never ends before it started.
    pub fn finish(self, ended_at_ms: u64, is_complete: bool, is_estimated: bool) -> (t: UsageTask)
        ensures
            t@ == finished_task(self@, ended_at_ms, is_complete, is_estimated),
    {
        let ended_at_ms = later_of(ended_at_ms, self.started_at_ms);
        UsageTask {
            id: self.id,
            started_at_ms: self.started_at_ms,
            ended_at_ms,
            duration_seconds: (ended_at_ms - self.started_at_ms) / 1000,
            weekly_consumed_percent: self.weekly_consumed_percent,
            five_hour_consumed_percent: self.five_hour_consumed_percent,
            end_weekly_remaining_percent: self.end_weekly_remaining_percent,
            end_five_hour_remaining_percent: self.end_five_hour_remaining_percent,
            record_mode: automatic_record_mode(),
            is_complete,
            is_estimated,
            created_at_ms: self.created_at_ms,
            updated_at_ms: ended_at_ms,
        }
    }
}

/// Drops the oldest tasks so that at most `MAX_TASKS` remain.
pub fn trim_oldest(tasks: &mut Vec<UsageTask>)
    ensures
        final(tasks)@.map_values(|t: UsageTask| t@) == trimmed(old(tasks)@.map_values(|t: UsageTask| t@)),
{
    if tasks.len() > MAX_TASKS {
        let remove = tasks.len() - MAX_TASKS;
        let kept = tasks.split_off(remove);
        *tasks = kept;
        proof {
            let m = old(tasks)@.map_values(|t: UsageTask| t@);
            assert(final(tasks)@.map_values(|t: UsageTask| t@) =~= m.skip(remove as int));
        }
    }
}


// ---------------------------------------------------------------------------
// Preferences
// ---------------------------------------------------------------------------

pub open spec fn is_weekly_filter(s: Seq<char>) -> bool {
    s == "all"@ || s == "gte1"@ || s == "gte3"@ || s == "gte5"@ || s == "custom"@
}

pub open spec fn is_time_filter(s: Seq<char>) -> bool {
    s == "today"@ || s == "7d"@ || s == "30d"@ || s == "all"@
}

pub open spec fn is_sort_mode(s: Seq<char>) -> bool {
    s == "latest"@ || s == "weekly"@ || s == "duration"@
}

/// The preferences used when none are saved or they are not valid.
pub open spec fn default_preferences() -> PreferencesModel {
    PreferencesModel {
        weekly_filter: "gte3"@,
        custom_threshold: DEFAULT_CUSTOM_THRESHOLD,
        time_filter: "30d"@,
        sort_mode: "latest"@,
    }
}

/// Preferences with every unknown or out-of-range setting replaced by its default.
pub open spec fn normalized_preferences(p: PreferencesModel) -> PreferencesModel {
    PreferencesModel {
        weekly_filter: if is_weekly_filter(p.weekly_filter) { p.weekly_filter } else { "gte3"@ },
        custom_threshold: if 0 <= p.custom_threshold <= HUNDRED_PERCENT { p.custom_threshold } else { DEFAULT_CUSTOM_THRESHOLD },
        time_filter: if is_time_filter(p.time_filter) { p.time_filter } else { "30d"@ },
        sort_mode: if is_sort_mode(p.sort_mode) { p.sort_mode } else { "latest"@ },
    }
}

pub open spec fn preferences_valid(p: PreferencesModel) -> bool {
    &&& is_weekly_filter(p.weekly_filter)
    &&& 0 <= p.custom_threshold <= HUNDRED_PERCENT
    &&& is_time_filter(p.time_filter)
    &&& is_sort_mode(p.sort_mode)
}

impl Default for UsageLogPreferences {
    fn default() -> (p: Self)
        ensures
            p@ == default_preferences(),
    {
        UsageLogPreferences {
            weekly_filter: "gte3".to_string(),
            custom_threshold: DEFAULT_CUSTOM_THRESHOLD,
            time_filter: "30d".to_string(),
            sort_mode: "latest".to_string(),
        }
    }
}

fn is_one_of(value: &String, choices: &Vec<&str>) -> (r: bool)
    ensures
        r == exists|i: int| 0 <= i < choices@.len() && value@ == choices@[i]@,
{
    let mut i: usize = 0;
    while i < choices.len()
        invariant
            i <= choices@.len(),
            forall|j: int| 0 <= j < i ==> value@ != choices@[j]@,
        decreases choices@.len() - i,
    {
        if str_eq(value.as_str(), choices[i]) {
            return true;
        }
        i = i + 1;
    }
    false
}

impl UsageLogPreferences {
    /// A copy of the preferences.
    pub fn duplicate(&self) -> (r: UsageLogPreferences)
        ensures
            r@ == self@,
    {
        UsageLogPreferences {
            weekly_filter: copy_string(&self.weekly_filter),
            custom_threshold: self.custom_threshold,
            time_filter: copy_string(&self.time_filter),
            sort_mode: copy_string(&self.sort_mode),
        }
    }

    /// Replaces every unknown filter or sort name, and a threshold outside
    /// 0..=100 percent, by its default.
    pub fn normalized(self) -> (p: Self)
        ensures
            p@ == normalized_preferences(self@),
    {
        let mut p = self;
        let weekly = vec!["all", "gte1", "gte3", "gte5", "custom"];
        if !is_one_of(&p.weekly_filter, &weekly) {
            p.weekly_filter = "gte3".to_string();
        } else {
            assert(is_weekly_filter(p.weekly_filter@)) by {
                let i = choose|i: int| 0 <= i < weekly@.len() && p.weekly_filter@ == weekly@[i]@;
            }
        }
        if !(0 <= p.custom_threshold && p.custom_threshold <= HUNDRED_PERCENT) {
            p.custom_threshold = DEFAULT_CUSTOM_THRESHOLD;
        }
        let time = vec!["today", "7d", "30d", "all"];
        if !is_one_of(&p.time_filter, &time) {
            p.time_filter = "30d".to_string();
        } else {
            assert(is_time_filter(p.time_filter@)) by {
                let i = choose|i: int| 0 <= i < time@.len() && p.time_filter@ == time@[i]@;
            }
        }
        let sort = vec!["latest", "weekly", "duration"];
        if !is_one_of(&p.sort_mode, &sort) {
            p.sort_mode = "latest".to_string();
        } else {
            assert(is_sort_mode(p.sort_mode@)) by {
                let i = choose|i: int| 0 <= i < sort@.len() && p.sort_mode@ == sort@[i]@;
            }
        }
        proof {
            if !is_one_of_spec(self.weekly_filter@, weekly@) {
                assert(!is_weekly_filter(self.weekly_filter@)) by {
                    if is_weekly_filter(self.weekly_filter@) {
                        assert(self.weekly_filter@ == weekly@[0]@ || self.weekly_filter@ == weekly@[1]@
                            || self.weekly_filter@ == weekly@[2]@ || self.weekly_filter@ == weekly@[3]@
                            || self.weekly_filter@ == weekly@[4]@);
                    }
                }
            }
            if !is_one_of_spec(self.time_filter@, time@) {
                assert(!is_time_filter(self.time_filter@)) by {
                    if is_time_filter(self.time_filter@) {
                        assert(self.time_filter@ == time@[0]@ || self.time_filter@ == time@[1]@
                            || self.time_filter@ == time@[2]@ || self.time_filter@ == time@[3]@);
                    }
                }
            }
            if !is_one_of_spec(self.sort_mode@, sort@) {
                assert(!is_sort_mode(self.sort_mode@)) by {
                    if is_sort_mode(self.sort_mode@) {
                        assert(self.sort_mode@ == sort@[0]@ || self.sort_mode@ == sort@[1]@
                            || self.sort_mode@ == sort@[2]@);
                    }
                }
            }
        }
        p
    }
}

pub open spec fn is_one_of_spec(value: Seq<char>, choices: Seq<&str>) -> bool {
    exists|i: int| 0 <= i < choices.len() && value == choices[i]@
}


// ---------------------------------------------------------------------------
// The store
// ---------------------------------------------------------------------------

/// An empty log at the current schema.
pub open spec fn default_log() -> LogModel {
    LogModel {
        schema_version: SCHEMA_VERSION,
        last_snapshot: None,
        active_task: None,
        tasks: Seq::empty(),
        preferences: default_preferences(),
    }
}

impl Default for UsageLogData {
    fn default() -> (d: Self)
        ensures
            d@ == default_log(),
    {
        let d = UsageLogData {
            schema_version: SCHEMA_VERSION,
            last_snapshot: None,
            active_task: None,
            tasks: Vec::new(),
            preferences: UsageLogPreferences::default(),
        };
        assert(d@.tasks =~= Seq::<TaskModel>::empty());
        d
    }
}

/// The oldest schema that already kept its quota baselines by quota kind.
pub const FIRST_KIND_SCHEMA: u32 = 2;

/// The schema of a saved log that does not state one: the first schema.
pub fn legacy_schema_version() -> (v: u32)
    ensures
        v == 1,
        v < FIRST_KIND_SCHEMA,
{
    1
}

pub open spec fn unreadable_message() -> Seq<char> {
    "无法读取消耗日志"@
}

pub open spec fn corrupt_message() -> Seq<char> {
    "消耗日志已损坏，已创建新的空日志"@
}

pub open spec fn upgrade_message() -> Seq<char> {
    "消耗日志已升级，旧额度基准已安全失效"@
}

pub open spec fn incomplete_message() -> Seq<char> {
    "上次未结束的任务已标记为不完整"@
}

/// The log held by what was read; unusable files give an empty log.
pub open spec fn read_log(stored: StoredLog) -> LogModel {
    match stored {
        StoredLog::Parsed(d) => LogModel { preferences: normalized_preferences(d@.preferences), ..d@ },
        _ => default_log(),
    }
}

pub open spec fn read_warning(stored: StoredLog) -> Option<Seq<char>> {
    match stored {
        StoredLog::Unreadable => Some(unreadable_message()),
        StoredLog::Corrupt => Some(corrupt_message()),
        _ => None,
    }
}

/// The log brought to the current schema. Logs older than `FIRST_KIND_SCHEMA`
/// kept baselines by slot, which are dropped.
pub open spec fn migrated(log: LogModel) -> LogModel {
    if log.schema_version < FIRST_KIND_SCHEMA {
        LogModel { schema_version: SCHEMA_VERSION, last_snapshot: None, ..log }
    } else if log.schema_version < SCHEMA_VERSION {
        LogModel { schema_version: SCHEMA_VERSION, ..log }
    } else {
        log
    }
}

pub open spec fn migration_warning(log: LogModel, warning: Option<Seq<char>>) -> Option<Seq<char>> {
    if log.schema_version < FIRST_KIND_SCHEMA { Some(upgrade_message()) } else { warning }
}

/// A task left active by the previous run is finished as incomplete and estimated.
pub open spec fn recovered(log: LogModel) -> LogModel {
    match log.active_task {
        Some(a) => with_active_finished(
            log,
            later(later(a.last_observed_at_ms, a.last_activity_at_ms), a.started_at_ms),
            false,
            true,
        ),
        None => log,
    }
}

pub open spec fn recovery_warning(log: LogModel, warning: Option<Seq<char>>) -> Option<Seq<char>> {
    match log.active_task {
        Some(_) => match warning {
            Some(w) => Some(w),
            None => Some(incomplete_message()),
        },
        None => warning,
    }
}

/// Whether the active task has seen no consumption for `IDLE_TIMEOUT_MS`.
pub open spec fn idle_expired(log: LogModel, now_ms: u64) -> bool {
    match log.active_task {
        Some(a) => now_ms >= a.last_activity_at_ms && now_ms - a.last_activity_at_ms >= IDLE_TIMEOUT_MS,
        None => false,
    }
}

/// When an idle task is closed it ends at its last activity.
pub open spec fn idle_end_time(log: LogModel) -> u64 {
    match log.active_task {
        Some(a) => a.last_activity_at_ms,
        None => 0,
    }
}

/// When the watched process or the app exits, the task ends at its last
/// observation or activity, whichever is later.
pub open spec fn exit_end_time(log: LogModel) -> u64 {
    match log.active_task {
        Some(a) => later(a.last_observed_at_ms, a.last_activity_at_ms),
        None => 0,
    }
}

/// The tasks without those whose id is `id`, in their order.
pub open spec fn without_id(tasks: Seq<TaskModel>, id: Seq<char>) -> Seq<TaskModel>
    decreases tasks.len(),
{
    if tasks.len() == 0 {
        tasks
    } else {
        let rest = without_id(tasks.drop_last(), id);
        if tasks.last().id == id { rest } else { rest.push(tasks.last()) }
    }
}

/// The tasks shown on screen: the history, then the active task.
pub open spec fn shown_tasks(log: LogModel, now_ms: u64) -> Seq<TaskViewModel> {
    let history = log.tasks.map_values(|t: TaskModel| TaskViewModel { task: t, is_active: false });
    match log.active_task {
        Some(a) => history.push(active_task_view(a, now_ms)),
        None => history,
    }
}

impl UsageTaskStore {
    /// The store built from what reading the log file gave: the log is brought
    /// to the current schema and a task left active by the previous run is
    /// finished as incomplete.
    pub fn load(stored: StoredLog) -> (store: Self)
        ensures
            store.data@ == recovered(migrated(read_log(stored))),
            opt_chars(store.warning) == recovery_warning(
                migrated(read_log(stored)),
                migration_warning(read_log(stored), read_warning(stored)),
            ),
    {
        let ghost stored_ghost = stored;
        let mut warning: Option<String> = None;
        let mut data = match stored {
            StoredLog::Parsed(parsed) => {
                let mut parsed = parsed;
                let preferences = parsed.preferences.duplicate();
                parsed.preferences = preferences.normalized();
                parsed
            },
            StoredLog::Missing => UsageLogData::default(),
            StoredLog::Unreadable => {
                warning = Some("无法读取消耗日志".to_string());
                UsageLogData::default()
            },
            StoredLog::Corrupt => {
                warning = Some("消耗日志已损坏，已创建新的空日志".to_string());
                UsageLogData::default()
            },
        };
        assert(data@ == read_log(stored_ghost));
        assert(opt_chars(warning) == read_warning(stored_ghost));
        let ghost l0 = data@;

        if data.schema_version < FIRST_KIND_SCHEMA {
            data.schema_version = SCHEMA_VERSION;
            data.last_snapshot = None;
            warning = Some("消耗日志已升级，旧额度基准已安全失效".to_string());
        } else if data.schema_version < SCHEMA_VERSION {
            data.schema_version = SCHEMA_VERSION;
        }
        assert(data@ == migrated(l0));
        let ghost l1 = data@;

        if let Some(active) = data.active_task.take() {
            let ended_at_ms = later_of(
                later_of(active.last_observed_at_ms, active.last_activity_at_ms),
                active.started_at_ms,
            );
            let ghost old_tasks = data@.tasks;
            let finished = active.finish(ended_at_ms, false, true);
            data.tasks.push(finished);
            assert(data@.tasks =~= old_tasks.push(finished@));
            trim_oldest(&mut data.tasks);
            if warning.is_none() {
                warning = Some("上次未结束的任务已标记为不完整".to_string());
            }
        }
        UsageTaskStore { data, warning }
    }

    /// Records why the log could not be saved (or any other problem to show).
    pub fn set_warning(&mut self, message: String)
        ensures
            final(self).data@ == old(self).data@,
            opt_chars(final(self).warning) == Some(message@),
    {
        self.warning = Some(message);
    }

    /// The log as shown at `now_ms`: the history in order, then the active task.
    pub fn view(&self, now_ms: u64) -> (v: UsageLogView)
        ensures
            v.tasks@.map_values(|t: UsageTaskView| t@) == shown_tasks(self.data@, now_ms),
            v.preferences@ == self.data@.preferences,
            opt_chars(v.warning) == opt_chars(self.warning),
    {
        let ghost history = self.data@.tasks.map_values(|t: TaskModel| TaskViewModel { task: t, is_active: false });
        let mut tasks: Vec<UsageTaskView> = Vec::new();
        let mut i: usize = 0;
        while i < self.data.tasks.len()
            invariant
                i <= self.data.tasks@.len(),
                history == self.data@.tasks.map_values(|t: TaskModel| TaskViewModel { task: t, is_active: false }),
                tasks@.map_values(|t: UsageTaskView| t@) =~= history.take(i as int),
            decreases self.data.tasks@.len() - i,
        {
            let task = self.data.tasks[i].duplicate();
            assert(self.data@.tasks[i as int] == self.data.tasks@[i as int]@);
            assert(history[i as int] == (TaskViewModel { task: task@, is_active: false }));
            let ghost before = tasks@;
            let shown = UsageTaskView { task, is_active: false };
            let ghost shown_model = shown@;
            tasks.push(shown);
            assert(tasks@ == before.push(shown));
            assert(tasks@.map_values(|t: UsageTaskView| t@) =~= before.map_values(|t: UsageTaskView| t@).push(shown_model));
            assert(history.take(i + 1) =~= history.take(i as int).push(history[i as int]));
            i = i + 1;
        }
        assert(history.take(i as int) =~= history);
        if let Some(active) = &self.data.active_task {
            tasks.push(active.as_view(now_ms));
            assert(tasks@.map_values(|t: UsageTaskView| t@) =~= history.push(active_task_view(active@, now_ms)));
        }
        UsageLogView {
            tasks,
            preferences: self.data.preferences.duplicate(),
            warning: copy_opt_string(&self.warning),
        }
    }

    fn finish_active(&mut self, ended_at_ms: u64, is_complete: bool, is_estimated: bool)
        ensures
            final(self).data@ == with_active_finished(old(self).data@, ended_at_ms, is_complete, is_estimated),
            final(self).warning == old(self).warning,
    {
        if let Some(active) = self.data.active_task.take() {
            let ghost old_tasks = self.data@.tasks;
            let finished = active.finish(ended_at_ms, is_complete, is_estimated);
            self.data.tasks.push(finished);
            assert(self.data@.tasks =~= old_tasks.push(finished@));
            trim_oldest(&mut self.data.tasks);
        }
    }

    fn add_consumption(
        &mut self,
        captured_at_ms: u64,
        weekly: QuotaChange,
        five_hour: QuotaChange,
        end_weekly_remaining_percent: Option<i64>,
        end_five_hour_remaining_percent: Option<i64>,
    )
        requires
            weekly.consumed >= 0,
            five_hour.consumed >= 0,
        ensures
            final(self).data@ == with_consumption(
                old(self).data@,
                captured_at_ms,
                weekly,
                five_hour,
                end_weekly_remaining_percent,
                end_five_hour_remaining_percent,
            ),
            final(self).warning == old(self).warning,
    {
        let base = match self.data.active_task.take() {
            Some(a) => a,
            None => ActiveUsageTask {
                id: unique_task_id(captured_at_ms, &self.data.tasks),
                started_at_ms: captured_at_ms,
                last_activity_at_ms: captured_at_ms,
                last_observed_at_ms: captured_at_ms,
                weekly_consumed_percent: if weekly.available { Some(0) } else { None },
                five_hour_consumed_percent: if five_hour.available { Some(0) } else { None },
                end_weekly_remaining_percent,
                end_five_hour_remaining_percent,
                created_at_ms: captured_at_ms,
                updated_at_ms: captured_at_ms,
            },
        };
        let weekly_total = if weekly.available {
            Some(add_capped_of(match base.weekly_consumed_percent { Some(t) => t, None => 0 }, weekly.consumed))
        } else {
            base.weekly_consumed_percent
        };
        let five_hour_total = if five_hour.available {
            Some(add_capped_of(match base.five_hour_consumed_percent { Some(t) => t, None => 0 }, five_hour.consumed))
        } else {
            base.five_hour_consumed_percent
        };
        let last_activity_at_ms = later_of(captured_at_ms, base.last_activity_at_ms);
        let updated_at_ms = later_of(captured_at_ms, base.updated_at_ms);
        self.data.active_task = Some(ActiveUsageTask {
            id: base.id,
            started_at_ms: base.started_at_ms,
            last_activity_at_ms,
            last_observed_at_ms: base.last_observed_at_ms,
            weekly_consumed_percent: weekly_total,
            five_hour_consumed_percent: five_hour_total,
            end_weekly_remaining_percent: base.end_weekly_remaining_percent,
            end_five_hour_remaining_percent: base.end_five_hour_remaining_percent,
            created_at_ms: base.created_at_ms,
            updated_at_ms,
        });
    }

    fn observe(&mut self, captured_at_ms: u64, end_weekly: Option<i64>, end_five_hour: Option<i64>)
        ensures
            final(self).data@ == with_observation(old(self).data@, captured_at_ms, end_weekly, end_five_hour),
            final(self).warning == old(self).warning,
    {
        if let Some(a) = self.data.active_task.take() {
            let last_observed_at_ms = later_of(captured_at_ms, a.last_observed_at_ms);
            self.data.active_task = Some(ActiveUsageTask {
                id: a.id,
                started_at_ms: a.started_at_ms,
                last_activity_at_ms: a.last_activity_at_ms,
                last_observed_at_ms,
                weekly_consumed_percent: a.weekly_consumed_percent,
                five_hour_consumed_percent: a.five_hour_consumed_percent,
                end_weekly_remaining_percent: end_weekly,
                end_five_hour_remaining_percent: end_five_hour,
                created_at_ms: a.created_at_ms,
                updated_at_ms: a.updated_at_ms,
            });
        }
    }

    /// Records one quota snapshot. The first snapshot only sets the baseline.
    /// Without `allow_consumption` the snapshot only replaces the baseline and
    /// the active task's latest balances. Otherwise decreases against the
    /// baseline are added to the active task (opened when needed), and a quota
    /// reset first finishes the active task.
    pub fn record_snapshot(&mut self, current: UsageSnapshot, allow_consumption: bool)
        ensures
            final(self).data@ == record_snapshot_spec(old(self).data@, current, allow_consumption),
            final(self).warning == old(self).warning,
    {
        let current = UsageSnapshot {
            captured_at_ms: current.captured_at_ms,
            weekly_remaining_percent: valid_percent(current.weekly_remaining_percent),
            five_hour_remaining_percent: valid_percent(current.five_hour_remaining_percent),
        };
        let previous = match self.data.last_snapshot {
            None => {
                self.data.last_snapshot = Some(current);
                return;
            },
            Some(p) => p,
        };
        if !allow_consumption {
            self.observe(current.captured_at_ms, current.weekly_remaining_percent, current.five_hour_remaining_percent);
            self.data.last_snapshot = Some(replace_baselines(current));
            return;
        }
        let weekly = quota_change(previous.weekly_remaining_percent, current.weekly_remaining_percent);
        let five_hour = quota_change(previous.five_hour_remaining_percent, current.five_hour_remaining_percent);
        if weekly.reset || five_hour.reset {
            self.finish_active(current.captured_at_ms, true, false);
        }
        if weekly.consumed > 0 || five_hour.consumed > 0 {
            self.add_consumption(
                current.captured_at_ms,
                weekly,
                five_hour,
                current.weekly_remaining_percent,
                current.five_hour_remaining_percent,
            );
        }
        self.observe(current.captured_at_ms, current.weekly_remaining_percent, current.five_hour_remaining_percent);
        self.data.last_snapshot = Some(UsageSnapshot {
            captured_at_ms: current.captured_at_ms,
            weekly_remaining_percent: weekly.next_baseline,
            five_hour_remaining_percent: five_hour.next_baseline,
        });
    }

    /// Closes the active task when it has been idle for `IDLE_TIMEOUT_MS`;
    /// it then ends at its last activity. Returns whether it was closed.
    pub fn close_idle_task(&mut self, now_ms: u64) -> (closed: bool)
        ensures
            closed == idle_expired(old(self).data@, now_ms),
            closed ==> final(self).data@ == with_active_finished(old(self).data@, idle_end_time(old(self).data@), true, false),
            !closed ==> final(self).data@ == old(self).data@,
            final(self).warning == old(self).warning,
    {
        let ended_at_ms = match &self.data.active_task {
            Some(task) => {
                let idle = if now_ms >= task.last_activity_at_ms { now_ms - task.last_activity_at_ms } else { 0 };
                if idle < IDLE_TIMEOUT_MS {
                    return false;
                }
                task.last_activity_at_ms
            },
            None => {
                return false;
            },
        };
        self.finish_active(ended_at_ms, true, false);
        true
    }

    /// The watched process exited: the active task is finished as complete,
    /// and as estimated unless the final refresh succeeded. Returns whether
    /// there was an active task.
    pub fn finish_for_process_exit(&mut self, now_ms: u64, final_refresh_ok: bool) -> (finished: bool)
        ensures
            finished == old(self).data@.active_task is Some,
            final(self).data@ == with_active_finished(old(self).data@, exit_end_time(old(self).data@), true, !final_refresh_ok),
            final(self).warning == old(self).warning,
    {
        let ended_at_ms = match &self.data.active_task {
            Some(task) => later_of(task.last_observed_at_ms, task.last_activity_at_ms),
            None => {
                return false;
            },
        };
        self.finish_active(ended_at_ms, true, !final_refresh_ok);
        true
    }

    /// The app exits: the active task is finished as incomplete and estimated.
    /// Returns whether there was an active task.
    pub fn finish_for_app_exit(&mut self, now_ms: u64) -> (finished: bool)
        ensures
            finished == old(self).data@.active_task is Some,
            final(self).data@ == with_active_finished(old(self).data@, exit_end_time(old(self).data@), false, true),
            final(self).warning == old(self).warning,
    {
        let ended_at_ms = match &self.data.active_task {
            Some(task) => later_of(task.last_observed_at_ms, task.last_activity_at_ms),
            None => {
                return false;
            },
        };
        self.finish_active(ended_at_ms, false, true);
        true
    }

    /// Removes every historical task whose id is `id`; the active task is
    /// never removed. Returns whether a task was removed.
    pub fn delete_task(&mut self, id: &str) -> (removed: bool)
        ensures
            removed == id_taken(old(self).data@.tasks, id@),
            final(self).data@ == (LogModel { tasks: without_id(old(self).data@.tasks, id@), ..old(self).data@ }),
            final(self).warning == old(self).warning,
    {
        let ghost model = self.data@.tasks;
        let target = chars_of(id);
        let mut kept: Vec<UsageTask> = Vec::new();
        let mut found = false;
        let mut i: usize = 0;
        while i < self.data.tasks.len()
            invariant
                model == self.data@.tasks,
                i <= model.len(),
                target@ == id@,
                kept@.map_values(|t: UsageTask| t@) =~= without_id(model.take(i as int), id@),
                found == id_taken(model.take(i as int), id@),
            decreases model.len() - i,
        {
            let existing = chars_of(self.data.tasks[i].id.as_str());
            assert(model[i as int] == self.data.tasks@[i as int]@);
            let ghost prefix = model.take(i as int);
            let ghost next = model.take(i + 1);
            assert(next.drop_last() =~= prefix);
            assert(next.last() == model[i as int]);
            if crate::text::chars_eq(&existing, &target) {
                found = true;
                assert(next[i as int].id == id@);
            } else {
                kept.push(self.data.tasks[i].duplicate());
                assert(model[i as int].id != id@);
            }
            assert(id_taken(next, id@) == (id_taken(prefix, id@) || model[i as int].id == id@)) by {
                if id_taken(next, id@) {
                    let j = choose|j: int| 0 <= j < next.len() && next[j].id == id@;
                    if j < i {
                        assert(prefix[j] == next[j]);
                    }
                }
                if id_taken(prefix, id@) {
                    let j = choose|j: int| 0 <= j < prefix.len() && prefix[j].id == id@;
                    assert(next[j] == prefix[j]);
                }
            }
            i = i + 1;
        }
        assert(model.take(i as int) =~= model);
        if found {
            self.data.tasks = kept;
        } else {
            proof {
                lemma_without_absent_id(model, id@);
            }
        }
        found
    }

    /// Removes the whole history; the active task and the baseline stay.
    pub fn clear_history(&mut self)
        ensures
            final(self).data@ == (LogModel { tasks: Seq::empty(), ..old(self).data@ }),
            final(self).warning == old(self).warning,
    {
        self.data.tasks = Vec::new();
        assert(self.data@.tasks =~= Seq::<TaskModel>::empty());
    }

    /// Stores the preferences, with unknown settings replaced by defaults.
    pub fn save_preferences(&mut self, preferences: UsageLogPreferences)
        ensures
            final(self).data@ == (LogModel { preferences: normalized_preferences(preferences@), ..old(self).data@ }),
            final(self).warning == old(self).warning,
    {
        self.data.preferences = preferences.normalized();
    }
}

/// Removing an id that no task has changes nothing.
proof fn lemma_without_absent_id(tasks: Seq<TaskModel>, id: Seq<char>)
    requires
        !id_taken(tasks, id),
    ensures
        without_id(tasks, id) == tasks,
    decreases tasks.len(),
{
    if tasks.len() > 0 {
        let rest = tasks.drop_last();
        assert(!id_taken(rest, id)) by {
            if id_taken(rest, id) {
                let j = choose|j: int| 0 <= j < rest.len() && rest[j].id == id;
                assert(tasks[j] == rest[j]);
            }
        }
        lemma_without_absent_id(rest, id);
        assert(tasks.last() == tasks[tasks.len() - 1]);
        assert(rest.push(tasks.last()) =~= tasks);
    }
}

} // verus!
