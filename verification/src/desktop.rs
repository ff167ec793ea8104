//! Decisions of the desktop shell: when usage is collected, which processes
//! count as a running Codex / ChatGPT, how the process watcher shows and hides
//! the window, which project links may be opened, and the tray labels.
//! Windows, processes, the tray and the clock are the caller's part.
use vstd::prelude::*;
use crate::text::{chars_of, str_eq, ascii_lowered, ascii_lowercase};

verus! {

broadcast use vstd::string::group_string_axioms;

/// The version of this release, as it appears in release links.
pub const APP_VERSION: &'static str = "0.6.16";
pub const GITHUB_URL: &'static str = "https://github.com/lttlz/LXCodexMeter";
pub const GITEE_URL: &'static str = "https://gitee.com/lttlz/LXCodexMeter";
pub const GITHUB_RELEASES: &'static str = "https://github.com/lttlz/LXCodexMeter/releases";
pub const GITEE_RELEASES: &'static str = "https://gitee.com/lttlz/LXCodexMeter/releases";

/// Usage is collected while the main window is visible or while a Codex /
/// ChatGPT process is running.
pub fn should_collect_usage(window_visible: bool, target_process_running: bool) -> (collect: bool)
    ensures
        collect == (window_visible || target_process_running),
{
    window_visible || target_process_running
}

/// Whether a reading asked for by the window is taken: while usage is
/// collected, or when a final reading is owed after Codex / ChatGPT stopped.
pub fn status_fetch_allowed(window_visible: bool, target_process_running: bool, final_refresh_pending: bool) -> (r:
    bool)
    ensures
        r == (window_visible || target_process_running || final_refresh_pending),
{
    should_collect_usage(window_visible, target_process_running) || final_refresh_pending
}

// ---------------------------------------------------------------------------
// Project links
// ---------------------------------------------------------------------------

/// The page of this version's release under a project URL.
pub open spec fn release_tag_url(base: Seq<char>) -> Seq<char> {
    base + "/releases/tag/v"@ + APP_VERSION@
}

/// The links that may be opened: the two project pages, their release lists,
/// and the release page of this version; never with a query or a fragment.
pub open spec fn allowed_url(url: Seq<char>) -> bool {
    &&& !url.contains('?')
    &&& !url.contains('#')
    &&& {
        ||| url == GITHUB_URL@
        ||| url == GITEE_URL@
        ||| url == GITHUB_RELEASES@
        ||| url == GITEE_RELEASES@
        ||| url == release_tag_url(GITHUB_URL@)
        ||| url == release_tag_url(GITEE_URL@)
    }
}

fn tag_url_chars(base: &str) -> (v: Vec<char>)
    ensures
        v@ == release_tag_url(base@),
{
    let mut v = chars_of(base);
    let mut middle = chars_of("/releases/tag/v");
    v.append(&mut middle);
    let mut version = chars_of(APP_VERSION);
    v.append(&mut version);
    v
}

/// Whether `url` may be opened (see `allowed_url`).
pub fn is_allowed_url(url: &str) -> (allowed: bool)
    ensures
        allowed == allowed_url(url@),
{
    let u = chars_of(url);
    if crate::text::contains_char(&u, '?') || crate::text::contains_char(&u, '#') {
        return false;
    }
    let github_tag = tag_url_chars(GITHUB_URL);
    let gitee_tag = tag_url_chars(GITEE_URL);
    str_eq(url, GITHUB_URL) || str_eq(url, GITEE_URL) || str_eq(url, GITHUB_RELEASES) || str_eq(url, GITEE_RELEASES)
        || crate::text::chars_eq(&u, &github_tag) || crate::text::chars_eq(&u, &gitee_tag)
}

/// The link to open: the GitHub project page when none is given, the given
/// link when it is allowed; an error otherwise.
pub fn project_url_target(url: Option<&str>) -> (r: Result<String, String>)
    ensures
        match url {
            None => r matches Ok(t) && t@ == GITHUB_URL@,
            Some(u) => if allowed_url(u@) {
                r matches Ok(t) && t@ == u@
            } else {
                r matches Err(e) && e@ == "unsupported project url"@
            },
        },
{
    match url {
        None => Ok(GITHUB_URL.to_string()),
        Some(u) => {
            if !is_allowed_url(u) {
                return Err("unsupported project url".to_string());
            }
            Ok(u.to_string())
        },
    }
}

// ---------------------------------------------------------------------------
// Process detection
// ---------------------------------------------------------------------------

/// Counts of the processes seen in one scan.
#[derive(Clone, Copy, Debug, PartialEq, Eq, Structural)]
pub struct CodexDetectionResult {
    /// A user's Codex or ChatGPT is running.
    pub running: bool,
    pub matched_chatgpt: usize,
    pub matched_codex: usize,
    /// `codex.exe` processes started by this meter, which do not count.
    pub excluded_meter_children: usize,
}

impl Default for CodexDetectionResult {
    fn default() -> (r: Self)
        ensures
            !r.running,
            r.matched_chatgpt == 0,
            r.matched_codex == 0,
            r.excluded_meter_children == 0,
    {
        CodexDetectionResult { running: false, matched_chatgpt: 0, matched_codex: 0, excluded_meter_children: 0 }
    }
}

/// Counts one process by its name (compared without ASCII case): a
/// `chatgpt.exe` always counts as running; a `codex.exe` counts unless its
/// direct parent is this meter, in which case it is only counted as excluded;
/// any other process is ignored.
pub fn classify_codex_process(result: &mut CodexDetectionResult, process_name: &str, is_meter_child: bool)
    requires
        old(result).matched_chatgpt < usize::MAX,
        old(result).matched_codex < usize::MAX,
        old(result).excluded_meter_children < usize::MAX,
    ensures
        ({
            let name = ascii_lowered(process_name@);
            let before = *old(result);
            let after = *final(result);
            if name == "chatgpt.exe"@ {
                after == CodexDetectionResult { running: true, matched_chatgpt: (before.matched_chatgpt + 1) as usize, ..before }
            } else if name == "codex.exe"@ && is_meter_child {
                after == CodexDetectionResult { excluded_meter_children: (before.excluded_meter_children + 1) as usize, ..before }
            } else if name == "codex.exe"@ {
                after == CodexDetectionResult { running: true, matched_codex: (before.matched_codex + 1) as usize, ..before }
            } else {
                after == before
            }
        }),
{
    let chars = chars_of(process_name);
    let name = ascii_lowercase(&chars);
    let chatgpt = chars_of("chatgpt.exe");
    let codex = chars_of("codex.exe");
    if crate::text::chars_eq(&name, &chatgpt) {
        result.matched_chatgpt = result.matched_chatgpt + 1;
        result.running = true;
    } else if crate::text::chars_eq(&name, &codex) {
        if is_meter_child {
            result.excluded_meter_children = result.excluded_meter_children + 1;
        } else {
            result.matched_codex = result.matched_codex + 1;
            result.running = true;
        }
    }
}

// ---------------------------------------------------------------------------
// The process watcher
// ---------------------------------------------------------------------------

/// Poll interval while Codex / ChatGPT runs.
pub const RUNNING_POLL_MS: u64 = 1_000;
/// Poll interval while a close is being confirmed.
pub const CONFIRM_POLL_MS: u64 = 500;
/// Poll interval while nothing runs.
pub const IDLE_POLL_MS: u64 = 4_000;
/// Consecutive "not running" readings that confirm a close.
pub const CLOSE_CONFIRMATIONS: u32 = 2;

/// What the process watcher remembers between scans.
#[derive(Clone, Copy, Debug, PartialEq, Eq, Structural)]
pub struct WatcherState {
    /// Codex / ChatGPT was running at the last confirmed reading.
    pub prev: bool,
    /// Consecutive "not running" readings since it last ran.
    pub close_confirm: u32,
    /// The window was already hidden automatically in this cycle.
    pub auto_hidden_this_cycle: bool,
}

/// What the watcher asks the shell to do after one scan.
#[derive(Clone, Copy, Debug, PartialEq, Eq, Structural)]
pub struct WatcherActions {
    /// New value of the "Codex known running" flag, if it is set.
    pub set_codex_known_running: Option<bool>,
    /// New value of the usage runtime's "target running", if it is set.
    pub set_target_running: Option<bool>,
    /// A new cycle starts: the "manual show" marker is cleared.
    pub clear_manual_show: bool,
    /// The "manual hidden" marker is cleared.
    pub clear_manual_hidden: bool,
    /// Show the window (without focusing it) and request a refresh.
    pub show_window: bool,
    /// Hide the window.
    pub hide_window: bool,
    /// How long to sleep before the next scan.
    pub sleep_ms: u64,
}

impl WatcherState {
    /// The state before the first scan.
    pub fn new() -> (s: Self)
        ensures
            s == watcher_start(),
    {
        WatcherState { prev: false, close_confirm: 0, auto_hidden_this_cycle: false }
    }
}

/// One step of the watcher, given whether Codex / ChatGPT runs now.
pub open spec fn watcher_step(
    s: WatcherState,
    running: bool,
    auto_show_on_codex: bool,
    auto_hide_on_codex_close: bool,
    manual_hidden: bool,
) -> (WatcherState, WatcherActions) {
    if running {
        (
            WatcherState {
                prev: true,
                close_confirm: 0,
                auto_hidden_this_cycle: if !s.prev { false } else { s.auto_hidden_this_cycle },
            },
            WatcherActions {
                set_codex_known_running: Some(true),
                set_target_running: Some(true),
                clear_manual_show: !s.prev,
                clear_manual_hidden: false,
                show_window: !s.prev && auto_show_on_codex && !manual_hidden,
                hide_window: false,
                sleep_ms: RUNNING_POLL_MS,
            },
        )
    } else if s.prev {
        let confirm = if s.close_confirm == u32::MAX { u32::MAX } else { (s.close_confirm + 1) as u32 };
        if confirm >= CLOSE_CONFIRMATIONS {
            (
                WatcherState { prev: false, close_confirm: 0, auto_hidden_this_cycle: s.auto_hidden_this_cycle || auto_hide_on_codex_close },
                WatcherActions {
                    set_codex_known_running: Some(false),
                    set_target_running: Some(false),
                    clear_manual_show: false,
                    clear_manual_hidden: true,
                    show_window: false,
                    hide_window: auto_hide_on_codex_close && !s.auto_hidden_this_cycle,
                    sleep_ms: IDLE_POLL_MS,
                },
            )
        } else {
            (
                WatcherState { prev: true, close_confirm: confirm, auto_hidden_this_cycle: s.auto_hidden_this_cycle },
                WatcherActions {
                    set_codex_known_running: None,
                    set_target_running: None,
                    clear_manual_show: false,
                    clear_manual_hidden: false,
                    show_window: false,
                    hide_window: false,
                    sleep_ms: CONFIRM_POLL_MS,
                },
            )
        }
    } else {
        (
            WatcherState { prev: false, close_confirm: 0, auto_hidden_this_cycle: s.auto_hidden_this_cycle },
            WatcherActions {
                set_codex_known_running: Some(false),
                set_target_running: Some(false),
                clear_manual_show: false,
                clear_manual_hidden: true,
                show_window: false,
                hide_window: false,
                sleep_ms: IDLE_POLL_MS,
            },
        )
    }
}

impl WatcherState {
    /// One scan of the watcher. A start (not running, then running) begins a
    /// new cycle: the manual-show marker is cleared and the window is shown
    /// unless the user hid it in this cycle. A close is confirmed only after
    /// `CLOSE_CONFIRMATIONS` readings in a row; the window is then hidden at
    /// most once per cycle.
    pub fn step(
        &mut self,
        running: bool,
        auto_show_on_codex: bool,
        auto_hide_on_codex_close: bool,
        manual_hidden: bool,
    ) -> (actions: WatcherActions)
        ensures
            (*final(self), actions) == watcher_step(*old(self), running, auto_show_on_codex, auto_hide_on_codex_close, manual_hidden),
    {
        if running {
            let new_cycle = !self.prev;
            if new_cycle {
                self.auto_hidden_this_cycle = false;
            }
            self.prev = true;
            self.close_confirm = 0;
            WatcherActions {
                set_codex_known_running: Some(true),
                set_target_running: Some(true),
                clear_manual_show: new_cycle,
                clear_manual_hidden: false,
                show_window: new_cycle && auto_show_on_codex && !manual_hidden,
                hide_window: false,
                sleep_ms: RUNNING_POLL_MS,
            }
        } else if self.prev {
            self.close_confirm = self.close_confirm.saturating_add(1);
            if self.close_confirm >= CLOSE_CONFIRMATIONS {
                let hide = auto_hide_on_codex_close && !self.auto_hidden_this_cycle;
                if auto_hide_on_codex_close {
                    self.auto_hidden_this_cycle = true;
                }
                self.prev = false;
                self.close_confirm = 0;
                WatcherActions {
                    set_codex_known_running: Some(false),
                    set_target_running: Some(false),
                    clear_manual_show: false,
                    clear_manual_hidden: true,
                    show_window: false,
                    hide_window: hide,
                    sleep_ms: IDLE_POLL_MS,
                }
            } else {
                WatcherActions {
                    set_codex_known_running: None,
                    set_target_running: None,
                    clear_manual_show: false,
                    clear_manual_hidden: false,
                    show_window: false,
                    hide_window: false,
                    sleep_ms: CONFIRM_POLL_MS,
                }
            }
        } else {
            self.close_confirm = 0;
            WatcherActions {
                set_codex_known_running: Some(false),
                set_target_running: Some(false),
                clear_manual_show: false,
                clear_manual_hidden: true,
                show_window: false,
                hide_window: false,
                sleep_ms: IDLE_POLL_MS,
            }
        }
    }
}

/// The watcher's state before its first scan.
pub open spec fn watcher_start() -> WatcherState {
    WatcherState { prev: false, close_confirm: 0, auto_hidden_this_cycle: false }
}

/// The watcher's state after the scans `inputs`, from the start. Each input
/// is one scan: whether Codex / ChatGPT runs, then the auto-show and
/// auto-hide settings and the manual-hidden marker read at that scan.
pub open spec fn watcher_after(inputs: Seq<(bool, bool, bool, bool)>) -> WatcherState
    decreases inputs.len(),
{
    if inputs.len() == 0 {
        watcher_start()
    } else {
        let x = inputs.last();
        watcher_step(watcher_after(inputs.drop_last()), x.0, x.1, x.2, x.3).0
    }
}

/// What the watcher does at scan `i` of `inputs`.
pub open spec fn watcher_actions_at(inputs: Seq<(bool, bool, bool, bool)>, i: int) -> WatcherActions {
    let x = inputs[i];
    watcher_step(watcher_after(inputs.take(i)), x.0, x.1, x.2, x.3).1
}

/// What holds of every state the watcher reaches: at most one "not running"
/// reading is pending, and only while a cycle runs.
pub open spec fn watcher_state_ok(s: WatcherState) -> bool {
    s.close_confirm <= 1 && (s.close_confirm == 1 ==> s.prev)
}

proof fn lemma_watcher_after_facts(inputs: Seq<(bool, bool, bool, bool)>)
    ensures
        watcher_state_ok(watcher_after(inputs)),
        watcher_after(inputs).close_confirm == 1 ==> inputs.len() >= 1 && !inputs.last().0 && watcher_after(
            inputs.drop_last(),
        ).prev && watcher_after(inputs.drop_last()).close_confirm == 0,
        watcher_after(inputs).prev && watcher_after(inputs).close_confirm == 0 ==> inputs.len() >= 1
            && inputs.last().0,
    decreases inputs.len(),
{
    if inputs.len() > 0 {
        lemma_watcher_after_facts(inputs.drop_last());
    }
}

/// Over any run of scans from the start, every state reached keeps at most
/// one pending "not running" reading, and only inside a cycle. The window is
/// hidden at scan `i` only when scans `i - 2`, `i - 1` and `i` read running,
/// not running, not running: two readings in a row close the cycle, and that
/// same scan stops the usage runtime's target and clears "Codex known
/// running". The window is shown only at a scan that reads running after a
/// scan that closed (or before any) cycle.
pub proof fn lemma_watcher_run(inputs: Seq<(bool, bool, bool, bool)>, i: int)
    requires
        0 <= i < inputs.len(),
    ensures
        watcher_state_ok(watcher_after(inputs.take(i))),
        watcher_actions_at(inputs, i).hide_window ==> 2 <= i && inputs[i - 2].0 && !inputs[i - 1].0 && !inputs[i].0
            && watcher_actions_at(inputs, i).set_target_running == Some(false)
            && watcher_actions_at(inputs, i).set_codex_known_running == Some(false),
        watcher_actions_at(inputs, i).show_window ==> inputs[i].0 && !watcher_after(inputs.take(i)).prev,
{
    let p = inputs.take(i);
    lemma_watcher_after_facts(p);
    if i >= 1 {
        assert(p.last() == inputs[i - 1]);
        assert(p.drop_last() =~= inputs.take(i - 1));
        lemma_watcher_after_facts(inputs.take(i - 1));
        if i >= 2 {
            assert(inputs.take(i - 1).last() == inputs[i - 2]);
        }
    }
}

proof fn lemma_cycle_starts_between(inputs: Seq<(bool, bool, bool, bool)>, a: int, b: int)
    requires
        0 <= a < b <= inputs.len(),
        !watcher_after(inputs.take(a)).prev,
        watcher_after(inputs.take(b)).prev,
    ensures
        exists|k: int| a <= k < b && inputs[k].0 && !watcher_after(#[trigger] inputs.take(k)).prev,
    decreases b - a,
{
    let q = inputs.take(b);
    assert(q.drop_last() =~= inputs.take(b - 1));
    assert(q.last() == inputs[b - 1]);
    if !watcher_after(inputs.take(b - 1)).prev {
        assert(inputs[b - 1].0);
    } else {
        lemma_cycle_starts_between(inputs, a, b - 1);
    }
}

/// The window is hidden at most once per cycle: between two automatic hides
/// there is a scan that starts a new cycle (running, after a closed cycle).
pub proof fn lemma_one_hide_per_cycle(inputs: Seq<(bool, bool, bool, bool)>, i: int, j: int)
    requires
        0 <= i < j < inputs.len(),
        watcher_actions_at(inputs, i).hide_window,
        watcher_actions_at(inputs, j).hide_window,
    ensures
        exists|k: int| i < k < j && inputs[k].0 && !watcher_after(#[trigger] inputs.take(k)).prev,
{
    let p = inputs.take(i + 1);
    assert(p.drop_last() =~= inputs.take(i));
    assert(p.last() == inputs[i]);
    lemma_cycle_starts_between(inputs, i + 1, j);
}

/// A single "not running" reading after a run never closes the cycle: the
/// flags stay, and nothing is hidden.
pub proof fn lemma_one_missed_reading_does_not_close(s: WatcherState, show: bool, hide: bool, manual_hidden: bool)
    requires
        s.prev,
        s.close_confirm == 0,
    ensures
        watcher_step(s, false, show, hide, manual_hidden).0.prev,
        !watcher_step(s, false, show, hide, manual_hidden).1.hide_window,
        watcher_step(s, false, show, hide, manual_hidden).1.set_target_running is None,
{
}

/// Two "not running" readings in a row after a run close the cycle; the
/// window is hidden only when auto-hide is on and it was not already hidden
/// automatically in this cycle, and a further close in the same cycle never
/// hides again.
pub proof fn lemma_close_hides_at_most_once(s: WatcherState, show: bool, hide: bool, manual_hidden: bool)
    requires
        s.prev,
        s.close_confirm == 0,
    ensures
        ({
            let (s1, _) = watcher_step(s, false, show, hide, manual_hidden);
            let (s2, a2) = watcher_step(s1, false, show, hide, manual_hidden);
            &&& !s2.prev
            &&& a2.set_target_running == Some(false)
            &&& a2.hide_window == (hide && !s.auto_hidden_this_cycle)
            &&& a2.hide_window ==> s2.auto_hidden_this_cycle
        }),
{
}

/// A new cycle (not running, then running) shows the window only when
/// auto-show is on and the user has not hidden it; while the cycle lasts no
/// further show is asked for.
pub proof fn lemma_show_only_on_new_cycle(s: WatcherState, show: bool, hide: bool, manual_hidden: bool)
    ensures
        watcher_step(s, true, show, hide, manual_hidden).1.show_window == (!s.prev && show && !manual_hidden),
        !watcher_step(watcher_step(s, true, show, hide, manual_hidden).0, true, show, hide, manual_hidden).1.show_window,
{
}

// ---------------------------------------------------------------------------
// Window, launch and tray
// ---------------------------------------------------------------------------

/// The "manual hidden" marker after the user hides the window: it records
/// whether a Codex cycle is running, and goes back to its previous value when
/// hiding failed.
pub fn manual_hidden_after_hide(previous: bool, codex_known_running: bool, hide_succeeded: bool) -> (r: bool)
    ensures
        r == (if hide_succeeded { codex_known_running } else { previous }),
{
    if hide_succeeded { codex_known_running } else { previous }
}

/// Whether the process was started by the OS autostart entry (it has the
/// `--autostart` argument).
pub fn launched_by_autostart(args: &Vec<String>) -> (r: bool)
    ensures
        r == exists|i: int| 0 <= i < args@.len() && args@[i]@ == "--autostart"@,
{
    let mut i: usize = 0;
    while i < args.len()
        invariant
            i <= args@.len(),
            forall|j: int| 0 <= j < i ==> args@[j]@ != "--autostart"@,
        decreases args@.len() - i,
    {
        if str_eq(args[i].as_str(), "--autostart") {
            return true;
        }
        i = i + 1;
    }
    false
}

/// The window starts hidden only when the user asked for it and the OS
/// autostart entry launched the process.
pub fn should_start_hidden(start_hidden: bool, args: &Vec<String>) -> (r: bool)
    ensures
        r == (start_hidden && exists|i: int| 0 <= i < args@.len() && args@[i]@ == "--autostart"@),
{
    let autostart_launch = launched_by_autostart(args);
    start_hidden && autostart_launch
}

/// The tray menu labels (refresh, settings, strip mode, show / hide, quit):
/// English for "en", Chinese otherwise.
pub fn tray_labels(lang: &str) -> (labels: (&'static str, &'static str, &'static str, &'static str, &'static str))
    ensures
        lang@ == "en"@ ==> labels.0@ == "Refresh"@ && labels.1@ == "Settings"@ && labels.2@ == "Toggle Strip Mode"@
            && labels.3@ == "Show / Hide"@ && labels.4@ == "Quit"@,
        lang@ != "en"@ ==> labels.0@ == "刷新"@ && labels.1@ == "设置"@ && labels.2@ == "切换任务栏条模式"@
            && labels.3@ == "显示 / 隐藏"@ && labels.4@ == "退出"@,
{
    if str_eq(lang, "en") {
        ("Refresh", "Settings", "Toggle Strip Mode", "Show / Hide", "Quit")
    } else {
        ("刷新", "设置", "切换任务栏条模式", "显示 / 隐藏", "退出")
    }
}

/// The shortest refresh interval the collector uses, in seconds.
pub const MIN_REFRESH_INTERVAL_SECS: u64 = 60;

/// The collector's refresh interval: the configured one, but at least a minute.
pub fn refresh_interval_secs(configured: u64) -> (r: u64)
    ensures
        r == (if configured >= MIN_REFRESH_INTERVAL_SECS { configured } else { MIN_REFRESH_INTERVAL_SECS }),
{
    if configured >= MIN_REFRESH_INTERVAL_SECS { configured } else { MIN_REFRESH_INTERVAL_SECS }
}

/// Whether the background collector reads usage in this round: only while
/// usage is collected, not twice in a round, and either because collection
/// has just started or because the refresh interval has passed.
pub fn collector_should_fetch(
    should_collect: bool,
    fetched_this_cycle: bool,
    was_collecting: bool,
    since_last_fetch_ms: u64,
    refresh_interval_ms: u64,
) -> (r: bool)
    ensures
        r == (should_collect && !fetched_this_cycle && (!was_collecting || since_last_fetch_ms >= refresh_interval_ms)),
{
    should_collect && !fetched_this_cycle && (!was_collecting || since_last_fetch_ms >= refresh_interval_ms)
}

// ---------------------------------------------------------------------------
// Configuration defaults
// ---------------------------------------------------------------------------

/// Default refresh interval: five minutes.
pub fn default_refresh_interval_secs() -> (r: u64)
    ensures
        r == 300,
{
    300
}

pub fn default_show_floating_window() -> (r: bool)
    ensures
        r,
{
    true
}

pub fn default_always_on_top() -> (r: bool)
    ensures
        r,
{
    true
}

/// Usage is read from the Codex app server by default.
pub fn default_source_mode() -> (r: String)
    ensures
        r@ == "app_server"@,
{
    "app_server".to_string()
}

pub fn default_taskbar_strip() -> (r: bool)
    ensures
        !r,
{
    false
}

pub fn default_show_reset_time() -> (r: bool)
    ensures
        r,
{
    true
}

pub fn default_auto_update() -> (r: bool)
    ensures
        !r,
{
    false
}

} // verus!
