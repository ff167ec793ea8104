//! The usage runtime: the state shared by the background collector and the
//! commands of the user interface. It decides when a cached reading can be
//! reused, turns readings into snapshots for the usage log, and remembers when
//! the watched Codex / ChatGPT process has just exited.
//!
//! Locking, the single-flight request lock and the reading itself are the
//! caller's part; every method here is a plain state transition.
use vstd::prelude::*;
use crate::meter::{CodexMeterStatus, LimitWindow, StatusModel, LimitModel};
use crate::task_log::{
    UsageTaskStore, UsageSnapshot, UsageLogView, UsageLogPreferences, UsageTaskView, LogModel,
    record_snapshot_spec, with_active_finished, idle_expired, idle_end_time, exit_end_time, shown_tasks,
    without_id, id_taken, normalized_preferences,
};
use crate::text::{opt_chars, copy_opt_string};
use crate::clock::clock_millis;

verus! {

broadcast use vstd::string::group_string_axioms;

/// A reading younger than this (5 seconds) is reused instead of read again.
pub const RECENT_STATUS_MS: u64 = 5_000;
/// Windows of at most 6 hours are taken for the 5-hour quota.
pub const FIVE_HOUR_MAX_MINUTES: i64 = 360;
/// Windows of at least a week are taken for the weekly quota.
pub const WEEKLY_MIN_MINUTES: i64 = 10_080;

/// Milliseconds held to the `u64` range.
pub fn millis_to_u64(ms: u128) -> (r: u64)
    ensures
        r == (if ms > u64::MAX as u128 { u64::MAX } else { ms as u64 }),
{
    if ms > u64::MAX as u128 { u64::MAX } else { ms as u64 }
}

/// The current time in milliseconds since the Unix epoch, held to the `u64` range.
pub fn now_ms() -> u64 {
    millis_to_u64(clock_millis())
}

/// How a window is classified by its duration.
pub open spec fn is_five_hour_window(l: LimitModel) -> bool {
    l.window_duration_mins matches Some(m) && m <= FIVE_HOUR_MAX_MINUTES
}

pub open spec fn is_weekly_window(l: LimitModel) -> bool {
    l.window_duration_mins matches Some(m) && !(m <= FIVE_HOUR_MAX_MINUTES) && m >= WEEKLY_MIN_MINUTES
}

pub open spec fn five_hour_slot(l: Option<LimitModel>) -> bool {
    l matches Some(w) && is_five_hour_window(w)
}

pub open spec fn weekly_slot(l: Option<LimitModel>) -> bool {
    l matches Some(w) && is_weekly_window(w)
}

/// The remaining percentage of an optional window.
pub open spec fn remaining_of(l: Option<LimitModel>) -> Option<i64> {
    match l {
        Some(w) => w.remaining_percent,
        None => None,
    }
}

/// The remaining 5-hour quota found by window duration (the later slot wins).
pub open spec fn five_hour_by_duration(s: StatusModel) -> Option<i64> {
    if five_hour_slot(s.secondary) {
        remaining_of(s.secondary)
    } else if five_hour_slot(s.primary) {
        remaining_of(s.primary)
    } else {
        None
    }
}

/// The remaining weekly quota found by window duration (the later slot wins).
pub open spec fn weekly_by_duration(s: StatusModel) -> Option<i64> {
    if weekly_slot(s.secondary) {
        remaining_of(s.secondary)
    } else if weekly_slot(s.primary) {
        remaining_of(s.primary)
    } else {
        None
    }
}

/// The 5-hour quota: by duration, else the primary slot.
pub open spec fn five_hour_remaining(s: StatusModel) -> Option<i64> {
    match five_hour_by_duration(s) {
        Some(v) => Some(v),
        None => remaining_of(s.primary),
    }
}

/// The weekly quota: by duration, else the secondary slot.
pub open spec fn weekly_remaining(s: StatusModel) -> Option<i64> {
    match weekly_by_duration(s) {
        Some(v) => Some(v),
        None => remaining_of(s.secondary),
    }
}

/// The snapshot that a reading gives to the usage log; none when it has
/// neither quota.
pub open spec fn snapshot_of(s: StatusModel) -> Option<UsageSnapshot> {
    if five_hour_remaining(s) is None && weekly_remaining(s) is None {
        None
    } else {
        Some(UsageSnapshot {
            captured_at_ms: if s.updated_at_ms > u64::MAX as u128 { u64::MAX } else { s.updated_at_ms as u64 },
            weekly_remaining_percent: weekly_remaining(s),
            five_hour_remaining_percent: five_hour_remaining(s),
        })
    }
}

/// When one slot holds a 5-hour window and the other a weekly window (by
/// duration), each stating its remaining percentage, the snapshot does not
/// depend on which slot holds which.
pub proof fn lemma_snapshot_independent_of_slot_order(s: StatusModel)
    requires
        (five_hour_slot(s.primary) && weekly_slot(s.secondary)) || (weekly_slot(s.primary) && five_hour_slot(
            s.secondary,
        )),
        remaining_of(s.primary) is Some,
        remaining_of(s.secondary) is Some,
    ensures
        snapshot_of(s) == snapshot_of(StatusModel { primary: s.secondary, secondary: s.primary, ..s }),
{
    let t = StatusModel { primary: s.secondary, secondary: s.primary, ..s };
    assert(t.primary == s.secondary && t.secondary == s.primary);
    if five_hour_slot(s.primary) && weekly_slot(s.secondary) {
        assert(!five_hour_slot(s.secondary) && !weekly_slot(s.primary));
        assert(five_hour_by_duration(s) == remaining_of(s.primary));
        assert(five_hour_by_duration(t) == remaining_of(s.primary));
        assert(weekly_by_duration(s) == remaining_of(s.secondary));
        assert(weekly_by_duration(t) == remaining_of(s.secondary));
    } else {
        assert(!five_hour_slot(s.primary) && !weekly_slot(s.secondary));
        assert(five_hour_by_duration(s) == remaining_of(s.secondary));
        assert(five_hour_by_duration(t) == remaining_of(s.secondary));
        assert(weekly_by_duration(s) == remaining_of(s.primary));
        assert(weekly_by_duration(t) == remaining_of(s.primary));
    }
}

/// The snapshot of the quotas in a reading. Windows of at most 6 hours give
/// the 5-hour quota and windows of at least a week the weekly quota; a quota
/// not found that way is taken from its usual slot (primary for 5 hours,
/// secondary for the week).
pub fn snapshot_from_status(status: &CodexMeterStatus) -> (snapshot: Option<UsageSnapshot>)
    ensures
        snapshot == snapshot_of(status@),
{
    let mut weekly: Option<i64> = None;
    let mut five_hour: Option<i64> = None;
    let mut unknown: Vec<&LimitWindow> = Vec::new();

    let mut i: usize = 0;
    while i < 2
        invariant
            i <= 2,
            i == 0 ==> five_hour is None && weekly is None && unknown@.len() == 0,
            i == 1 ==> five_hour == (if five_hour_slot(status@.primary) { remaining_of(status@.primary) } else { None }),
            i == 1 ==> weekly == (if weekly_slot(status@.primary) { remaining_of(status@.primary) } else { None }),
            i == 2 ==> five_hour == five_hour_by_duration(status@),
            i == 2 ==> weekly == weekly_by_duration(status@),
            forall|k: int| 0 <= k < unknown@.len() ==> Some(*unknown@[k]) == status.primary || Some(*unknown@[k]) == status.secondary,
        decreases 2 - i,
    {
        let slot = if i == 0 { status.primary.as_ref() } else { status.secondary.as_ref() };
        if let Some(limit) = slot {
            match limit.window_duration_mins {
                Some(minutes) if minutes <= FIVE_HOUR_MAX_MINUTES => {
                    five_hour = limit.remaining_percent;
                },
                Some(minutes) if minutes >= WEEKLY_MIN_MINUTES => {
                    weekly = limit.remaining_percent;
                },
                _ => {
                    unknown.push(limit);
                },
            }
        }
        i = i + 1;
    }

    if five_hour.is_none() {
        five_hour = match &status.primary {
            Some(limit) => limit.remaining_percent,
            None => None,
        };
    }
    if weekly.is_none() {
        weekly = match &status.secondary {
            Some(limit) => limit.remaining_percent,
            None => None,
        };
    }
    if five_hour.is_none() && weekly.is_none() {
        let mut k: usize = 0;
        while k < unknown.len()
            invariant
                k <= unknown@.len(),
                forall|j: int| 0 <= j < unknown@.len() ==> Some(*unknown@[j]) == status.primary || Some(*unknown@[j]) == status.secondary,
                remaining_of(status@.primary) is None,
                remaining_of(status@.secondary) is None,
                five_hour is None,
                weekly is None,
            decreases unknown@.len() - k,
        {
            let limit = unknown[k];
            if five_hour.is_none() {
                five_hour = limit.remaining_percent;
            } else if weekly.is_none() {
                weekly = limit.remaining_percent;
            }
            k = k + 1;
        }
    }
    if five_hour.is_none() && weekly.is_none() {
        return None;
    }
    Some(UsageSnapshot {
        captured_at_ms: millis_to_u64(status.updated_at_ms),
        weekly_remaining_percent: weekly,
        five_hour_remaining_percent: five_hour,
    })
}


/// The error when no usage log has been loaded.
pub open spec fn not_initialized_message() -> Seq<char> {
    "消耗日志后端尚未初始化"@
}

/// The state of the usage runtime.
pub struct UsageRuntime {
    /// The usage log, once it has been loaded.
    pub store: Option<UsageTaskStore>,
    /// The latest reading, reused while it is recent.
    pub latest_status: Option<CodexMeterStatus>,
    /// A problem met outside the log itself (such as a save that failed).
    pub runtime_warning: Option<String>,
    /// Whether a Codex / ChatGPT process is running.
    pub target_running: bool,
    /// The watched process has exited and one final reading is owed.
    pub final_refresh_requested: bool,
}

/// The log of an optional store.
pub open spec fn log_of(store: Option<UsageTaskStore>) -> Option<LogModel> {
    match store {
        Some(s) => Some(s.data@),
        None => None,
    }
}

/// The warning of an optional store.
pub open spec fn store_warning(store: Option<UsageTaskStore>) -> Option<Option<Seq<char>>> {
    match store {
        Some(s) => Some(opt_chars(s.warning)),
        None => None,
    }
}

/// The model of an optional reading.
pub open spec fn status_of(s: Option<CodexMeterStatus>) -> Option<StatusModel> {
    match s {
        Some(x) => Some(x@),
        None => None,
    }
}

/// Whether a reading taken at `updated_at_ms` is still recent at `now_ms`.
pub open spec fn is_recent(updated_at_ms: u128, now_ms: u64) -> bool {
    let taken = if updated_at_ms > u64::MAX as u128 { u64::MAX } else { updated_at_ms as u64 };
    now_ms < taken || now_ms - taken <= RECENT_STATUS_MS
}

/// Whether a final reading is owed after the watched process is seen
/// `running`, when it was `was_running` and one was owed already or not: a
/// change from running to not running makes one owed.
pub open spec fn refresh_owed_after(owed: bool, was_running: bool, running: bool) -> bool {
    owed || (was_running && !running)
}

/// A stop of the watched process leaves exactly one final reading owed:
/// after it one is owed whatever was owed before, taking it leaves none, and
/// while the process keeps running or stays stopped none is added.
pub proof fn lemma_stop_owes_one_final_reading(owed: bool)
    ensures
        refresh_owed_after(owed, true, false),
        !refresh_owed_after(false, true, true),
        !refresh_owed_after(false, false, false),
        !refresh_owed_after(false, false, true),
{
}

/// The snapshot that `record_status` gives to the log, if any.
pub open spec fn recorded_snapshot(status: StatusModel) -> Option<UsageSnapshot> {
    if status.ok { snapshot_of(status) } else { None }
}

impl UsageRuntime {
    /// A runtime with no log, no reading and no running process.
    pub fn new() -> (r: Self)
        ensures
            r.store is None,
            r.latest_status is None,
            r.runtime_warning is None,
            !r.target_running,
            !r.final_refresh_requested,
    {
        UsageRuntime {
            store: None,
            latest_status: None,
            runtime_warning: None,
            target_running: false,
            final_refresh_requested: false,
        }
    }

    /// Installs the loaded usage log.
    pub fn initialize_store(&mut self, store: UsageTaskStore)
        ensures
            log_of(final(self).store) == Some(store.data@),
            store_warning(final(self).store) == Some(opt_chars(store.warning)),
            status_of(final(self).latest_status) == status_of(old(self).latest_status),
            opt_chars(final(self).runtime_warning) == opt_chars(old(self).runtime_warning),
            final(self).target_running == old(self).target_running,
            final(self).final_refresh_requested == old(self).final_refresh_requested,
    {
        self.store = Some(store);
    }

    /// Records whether the watched process runs. A change from running to
    /// not running requests one final reading.
    pub fn set_target_running(&mut self, running: bool)
        ensures
            final(self).target_running == running,
            final(self).final_refresh_requested == refresh_owed_after(
                old(self).final_refresh_requested,
                old(self).target_running,
                running,
            ),
            log_of(final(self).store) == log_of(old(self).store),
            store_warning(final(self).store) == store_warning(old(self).store),
            status_of(final(self).latest_status) == status_of(old(self).latest_status),
            opt_chars(final(self).runtime_warning) == opt_chars(old(self).runtime_warning),
    {
        let previous = self.target_running;
        self.target_running = running;
        if previous && !running {
            self.final_refresh_requested = true;
        }
    }

    /// Whether the watched process runs.
    pub fn target_running(&self) -> (r: bool)
        ensures
            r == self.target_running,
    {
        self.target_running
    }

    /// Whether a final reading is owed.
    pub fn final_refresh_pending(&self) -> (r: bool)
        ensures
            r == self.final_refresh_requested,
    {
        self.final_refresh_requested
    }

    /// Takes the request for a final reading: returns whether one was owed,
    /// and none is owed afterwards.
    pub fn take_final_refresh_request(&mut self) -> (requested: bool)
        ensures
            requested == old(self).final_refresh_requested,
            !final(self).final_refresh_requested,
            final(self).target_running == old(self).target_running,
            log_of(final(self).store) == log_of(old(self).store),
            store_warning(final(self).store) == store_warning(old(self).store),
            status_of(final(self).latest_status) == status_of(old(self).latest_status),
            opt_chars(final(self).runtime_warning) == opt_chars(old(self).runtime_warning),
    {
        let requested = self.final_refresh_requested;
        self.final_refresh_requested = false;
        requested
    }

    /// The latest reading, when it is younger than `RECENT_STATUS_MS` at `now_ms`.
    pub fn recent_status(&self, now_ms: u64) -> (r: Option<CodexMeterStatus>)
        ensures
            status_of(r) == (match self.latest_status {
                Some(s) => if is_recent(s.updated_at_ms, now_ms) { Some(s@) } else { None },
                None => None,
            }),
    {
        match &self.latest_status {
            Some(status) => {
                let taken = millis_to_u64(status.updated_at_ms);
                let age = if now_ms >= taken { now_ms - taken } else { 0 };
                if age <= RECENT_STATUS_MS {
                    Some(status.duplicate())
                } else {
                    None
                }
            },
            None => None,
        }
    }

    /// The first step of a fetch at `now_ms`: the reading to answer with
    /// without reading anew, which is the recent one unless `force` is set.
    /// None means that a new reading is to be taken (and handed to
    /// `finish_fetch`).
    pub fn cached_reading(&self, now_ms: u64, force: bool) -> (r: Option<CodexMeterStatus>)
        ensures
            status_of(r) == (if force {
                None
            } else {
                match self.latest_status {
                    Some(s) => if is_recent(s.updated_at_ms, now_ms) { Some(s@) } else { None },
                    None => None,
                }
            }),
    {
        if force {
            None
        } else {
            self.recent_status(now_ms)
        }
    }

    /// The last step of a fetch: the reply of the read. A failed read is
    /// answered as it came and changes nothing. A reading is recorded as
    /// `record_status` records it and answered. Returns the answer and
    /// whether the log changed (and so must be saved).
    pub fn finish_fetch(&mut self, reply: Result<CodexMeterStatus, String>, allow_final_consumption: bool) -> (r: (
        Result<CodexMeterStatus, String>,
        bool,
    ))
        ensures
            match reply {
                Err(e) => {
                    &&& r.0 matches Err(x) && x@ == e@
                    &&& !r.1
                    &&& log_of(final(self).store) == log_of(old(self).store)
                    &&& store_warning(final(self).store) == store_warning(old(self).store)
                    &&& status_of(final(self).latest_status) == status_of(old(self).latest_status)
                    &&& opt_chars(final(self).runtime_warning) == opt_chars(old(self).runtime_warning)
                    &&& final(self).target_running == old(self).target_running
                    &&& final(self).final_refresh_requested == old(self).final_refresh_requested
                },
                Ok(status) => {
                    &&& r.0 matches Ok(x) && x@ == status@
                    &&& status_of(final(self).latest_status) == Some(status@)
                    &&& r.1 == (recorded_snapshot(status@) is Some && old(self).store is Some)
                    &&& log_of(final(self).store) == (match (recorded_snapshot(status@), log_of(old(self).store)) {
                        (Some(snap), Some(log)) => Some(
                            record_snapshot_spec(log, snap, old(self).target_running || allow_final_consumption),
                        ),
                        _ => log_of(old(self).store),
                    })
                    &&& store_warning(final(self).store) == store_warning(old(self).store)
                    &&& opt_chars(final(self).runtime_warning) == (if recorded_snapshot(status@) is Some
                        && old(self).store is None {
                        Some(not_initialized_message())
                    } else {
                        opt_chars(old(self).runtime_warning)
                    })
                    &&& final(self).target_running == old(self).target_running
                    &&& final(self).final_refresh_requested == old(self).final_refresh_requested
                },
            },
    {
        match reply {
            Err(e) => (Err(e), false),
            Ok(status) => {
                let answer = status.duplicate();
                let changed = self.record_status(status, allow_final_consumption);
                (Ok(answer), changed)
            },
        }
    }

    /// Records a new reading: it becomes the latest one, and when it is usable
    /// its snapshot goes to the usage log, consuming quota while the watched
    /// process runs or when `allow_final_consumption` is set. Returns whether
    /// the log changed (and so must be saved).
    pub fn record_status(&mut self, status: CodexMeterStatus, allow_final_consumption: bool) -> (log_changed: bool)
        ensures
            status_of(final(self).latest_status) == Some(status@),
            log_changed == (recorded_snapshot(status@) is Some && old(self).store is Some),
            log_of(final(self).store) == (match (recorded_snapshot(status@), log_of(old(self).store)) {
                (Some(snap), Some(log)) => Some(record_snapshot_spec(
                    log,
                    snap,
                    old(self).target_running || allow_final_consumption,
                )),
                _ => log_of(old(self).store),
            }),
            store_warning(final(self).store) == store_warning(old(self).store),
            opt_chars(final(self).runtime_warning) == (if recorded_snapshot(status@) is Some && old(self).store is None {
                Some(not_initialized_message())
            } else {
                opt_chars(old(self).runtime_warning)
            }),
            final(self).target_running == old(self).target_running,
            final(self).final_refresh_requested == old(self).final_refresh_requested,
    {
        let mut log_changed = false;
        if status.ok {
            if let Some(snapshot) = snapshot_from_status(&status) {
                let allow_consumption = self.target_running || allow_final_consumption;
                match &mut self.store {
                    Some(store) => {
                        store.record_snapshot(snapshot, allow_consumption);
                        log_changed = true;
                    },
                    None => {
                        self.runtime_warning = Some("消耗日志后端尚未初始化".to_string());
                    },
                }
            }
        }
        self.latest_status = Some(status);
        log_changed
    }

    /// Records a problem to show with the log.
    pub fn set_warning(&mut self, warning: String)
        ensures
            opt_chars(final(self).runtime_warning) == Some(warning@),
            log_of(final(self).store) == log_of(old(self).store),
            store_warning(final(self).store) == store_warning(old(self).store),
            status_of(final(self).latest_status) == status_of(old(self).latest_status),
            final(self).target_running == old(self).target_running,
            final(self).final_refresh_requested == old(self).final_refresh_requested,
    {
        self.runtime_warning = Some(warning);
    }

    /// Records in the log itself that it could not be saved.
    pub fn note_save_failure(&mut self, message: String)
        ensures
            log_of(final(self).store) == log_of(old(self).store),
            store_warning(final(self).store) == (match old(self).store {
                Some(_) => Some(Some(message@)),
                None => None,
            }),
            opt_chars(final(self).runtime_warning) == opt_chars(old(self).runtime_warning),
            status_of(final(self).latest_status) == status_of(old(self).latest_status),
            final(self).target_running == old(self).target_running,
            final(self).final_refresh_requested == old(self).final_refresh_requested,
    {
        if let Some(store) = &mut self.store {
            store.set_warning(message);
        }
    }

    /// Closes the active task when it has been idle (see
    /// `UsageTaskStore::close_idle_task`). Without a log, the runtime warns
    /// instead. Returns whether the log changed.
    pub fn close_idle_task(&mut self, now_ms: u64) -> (log_changed: bool)
        ensures
            log_changed == (match log_of(old(self).store) { Some(l) => idle_expired(l, now_ms), None => false }),
            log_of(final(self).store) == (match log_of(old(self).store) {
                Some(l) => Some(if idle_expired(l, now_ms) { with_active_finished(l, idle_end_time(l), true, false) } else { l }),
                None => None,
            }),
            store_warning(final(self).store) == store_warning(old(self).store),
            opt_chars(final(self).runtime_warning) == (if old(self).store is None {
                Some(not_initialized_message())
            } else {
                opt_chars(old(self).runtime_warning)
            }),
            status_of(final(self).latest_status) == status_of(old(self).latest_status),
            final(self).target_running == old(self).target_running,
            final(self).final_refresh_requested == old(self).final_refresh_requested,
    {
        match &mut self.store {
            Some(store) => store.close_idle_task(now_ms),
            None => {
                self.runtime_warning = Some("消耗日志后端尚未初始化".to_string());
                false
            },
        }
    }

    /// Finishes the active task after the watched process exited (see
    /// `UsageTaskStore::finish_for_process_exit`). Returns whether the log changed.
    pub fn finish_for_process_exit(&mut self, now_ms: u64, final_refresh_ok: bool) -> (log_changed: bool)
        ensures
            log_changed == (match log_of(old(self).store) { Some(l) => l.active_task is Some, None => false }),
            log_of(final(self).store) == (match log_of(old(self).store) {
                Some(l) => Some(with_active_finished(l, exit_end_time(l), true, !final_refresh_ok)),
                None => None,
            }),
            store_warning(final(self).store) == store_warning(old(self).store),
            opt_chars(final(self).runtime_warning) == (if old(self).store is None {
                Some(not_initialized_message())
            } else {
                opt_chars(old(self).runtime_warning)
            }),
            status_of(final(self).latest_status) == status_of(old(self).latest_status),
            final(self).target_running == old(self).target_running,
            final(self).final_refresh_requested == old(self).final_refresh_requested,
    {
        match &mut self.store {
            Some(store) => store.finish_for_process_exit(now_ms, final_refresh_ok),
            None => {
                self.runtime_warning = Some("消耗日志后端尚未初始化".to_string());
                false
            },
        }
    }

    /// Finishes the active task because the app exits (see
    /// `UsageTaskStore::finish_for_app_exit`). Returns whether the log changed.
    pub fn finish_for_app_exit(&mut self, now_ms: u64) -> (log_changed: bool)
        ensures
            log_changed == (match log_of(old(self).store) { Some(l) => l.active_task is Some, None => false }),
            log_of(final(self).store) == (match log_of(old(self).store) {
                Some(l) => Some(with_active_finished(l, exit_end_time(l), false, true)),
                None => None,
            }),
            store_warning(final(self).store) == store_warning(old(self).store),
            opt_chars(final(self).runtime_warning) == (if old(self).store is None {
                Some(not_initialized_message())
            } else {
                opt_chars(old(self).runtime_warning)
            }),
            status_of(final(self).latest_status) == status_of(old(self).latest_status),
            final(self).target_running == old(self).target_running,
            final(self).final_refresh_requested == old(self).final_refresh_requested,
    {
        match &mut self.store {
            Some(store) => store.finish_for_app_exit(now_ms),
            None => {
                self.runtime_warning = Some("消耗日志后端尚未初始化".to_string());
                false
            },
        }
    }

    /// The log as shown at `now_ms`; when the log has no warning of its own,
    /// the runtime's warning is shown. Fails when no log is loaded.
    pub fn log_view(&self, now_ms: u64) -> (r: Result<UsageLogView, String>)
        ensures
            match self.store {
                None => r matches Err(e) && e@ == not_initialized_message(),
                Some(s) => r matches Ok(v) && {
                    &&& v.tasks@.map_values(|t: UsageTaskView| t@) == shown_tasks(s.data@, now_ms)
                    &&& v.preferences@ == s.data@.preferences
                    &&& opt_chars(v.warning) == (if s.warning is Some { opt_chars(s.warning) } else { opt_chars(self.runtime_warning) })
                },
            },
    {
        match &self.store {
            None => Err("消耗日志后端尚未初始化".to_string()),
            Some(store) => {
                let mut view = store.view(now_ms);
                if view.warning.is_none() {
                    view.warning = copy_opt_string(&self.runtime_warning);
                }
                Ok(view)
            },
        }
    }

    /// Deletes historical tasks by id (see `UsageTaskStore::delete_task`).
    /// Fails when no log is loaded.
    pub fn delete_task(&mut self, id: &str) -> (r: Result<bool, String>)
        ensures
            match log_of(old(self).store) {
                None => r matches Err(e) && e@ == not_initialized_message() && final(self).store is None,
                Some(l) => r == Ok::<bool, String>(id_taken(l.tasks, id@))
                    && log_of(final(self).store) == Some(LogModel { tasks: without_id(l.tasks, id@), ..l }),
            },
            store_warning(final(self).store) == store_warning(old(self).store),
            opt_chars(final(self).runtime_warning) == opt_chars(old(self).runtime_warning),
            status_of(final(self).latest_status) == status_of(old(self).latest_status),
            final(self).target_running == old(self).target_running,
            final(self).final_refresh_requested == old(self).final_refresh_requested,
    {
        match &mut self.store {
            Some(store) => Ok(store.delete_task(id)),
            None => Err("消耗日志后端尚未初始化".to_string()),
        }
    }

    /// Clears the history (see `UsageTaskStore::clear_history`). Fails when no
    /// log is loaded.
    pub fn clear_history(&mut self) -> (r: Result<(), String>)
        ensures
            match log_of(old(self).store) {
                None => r matches Err(e) && e@ == not_initialized_message() && final(self).store is None,
                Some(l) => r is Ok && log_of(final(self).store) == Some(LogModel { tasks: Seq::empty(), ..l }),
            },
            store_warning(final(self).store) == store_warning(old(self).store),
            opt_chars(final(self).runtime_warning) == opt_chars(old(self).runtime_warning),
            status_of(final(self).latest_status) == status_of(old(self).latest_status),
            final(self).target_running == old(self).target_running,
            final(self).final_refresh_requested == old(self).final_refresh_requested,
    {
        match &mut self.store {
            Some(store) => {
                store.clear_history();
                Ok(())
            },
            None => Err("消耗日志后端尚未初始化".to_string()),
        }
    }

    /// Saves the preferences (see `UsageTaskStore::save_preferences`). Fails
    /// when no log is loaded.
    pub fn save_preferences(&mut self, preferences: UsageLogPreferences) -> (r: Result<(), String>)
        ensures
            match log_of(old(self).store) {
                None => r matches Err(e) && e@ == not_initialized_message() && final(self).store is None,
                Some(l) => r is Ok && log_of(final(self).store) == Some(
                    LogModel { preferences: normalized_preferences(preferences@), ..l },
                ),
            },
            store_warning(final(self).store) == store_warning(old(self).store),
            opt_chars(final(self).runtime_warning) == opt_chars(old(self).runtime_warning),
            status_of(final(self).latest_status) == status_of(old(self).latest_status),
            final(self).target_running == old(self).target_running,
            final(self).final_refresh_requested == old(self).final_refresh_requested,
    {
        match &mut self.store {
            Some(store) => {
                store.save_preferences(preferences);
                Ok(())
            },
            None => Err("消耗日志后端尚未初始化".to_string()),
        }
    }
}

} // verus!
