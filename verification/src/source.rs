//! Where a reading comes from: which sources a source mode reads and when a
//! read settles the reading, the reading of the client window's text, the
//! replies of the Codex app server, and the list of `codex` programs that the
//! app server is started from.
use vstd::prelude::*;
use crate::text::{chars_of, string_from_chars, opt_chars, str_eq, chars_eq, ascii_lowered, ascii_lowercase};
use crate::json::{JsonValue, json_get, json_i64};
use crate::meter::{CodexMeterStatus, StatusModel};
use crate::usage_text::{client_status, parse_client_usage_text_at};

verus! {

broadcast use vstd::string::group_string_axioms;

// ---------------------------------------------------------------------------
// Source modes
// ---------------------------------------------------------------------------

/// A source of readings.
#[derive(Debug, Clone, Copy, PartialEq, Eq, Structural)]
pub enum ReadSource {
    /// The Codex app server, started as a child process.
    AppServer,
    /// The visible text of the Codex client window.
    ClientWindow,
    /// The text of the Usage page, pasted by the user.
    ClientWatch,
}

/// The sources a source mode reads, in order. `auto` tries the app server,
/// then the client window, then the pasted text; `client_window` and
/// `client_watch` read that source alone; `app_server`, any other mode, and
/// no mode (the default mode is `app_server`) read the app server.
pub open spec fn read_plan_of(mode: Option<Seq<char>>) -> Seq<ReadSource> {
    match mode {
        Some(m) => if m == "auto"@ {
            seq![ReadSource::AppServer, ReadSource::ClientWindow, ReadSource::ClientWatch]
        } else if m == "client_window"@ {
            seq![ReadSource::ClientWindow]
        } else if m == "client_watch"@ {
            seq![ReadSource::ClientWatch]
        } else {
            seq![ReadSource::AppServer]
        },
        None => seq![ReadSource::AppServer],
    }
}

/// The sources that `mode` reads (see `read_plan_of`).
pub fn read_plan(mode: &Option<String>) -> (plan: Vec<ReadSource>)
    ensures
        plan@ == read_plan_of(opt_chars(*mode)),
{
    match mode {
        Some(m) => {
            if str_eq(m.as_str(), "auto") {
                vec![ReadSource::AppServer, ReadSource::ClientWindow, ReadSource::ClientWatch]
            } else if str_eq(m.as_str(), "client_window") {
                vec![ReadSource::ClientWindow]
            } else if str_eq(m.as_str(), "client_watch") {
                vec![ReadSource::ClientWatch]
            } else {
                vec![ReadSource::AppServer]
            }
        },
        None => vec![ReadSource::AppServer],
    }
}

/// Whether read `step` of a plan of `plan_len` reads settles the reading,
/// given its outcome (`None` for a failed read, else whether the reading is
/// `ok`): the last read is taken as it came, an earlier one only when it
/// gave an `ok` reading.
pub fn settles(step: usize, plan_len: usize, outcome: Option<bool>) -> (r: bool)
    requires
        step < plan_len,
    ensures
        r == settles_at(step as int, plan_len as int, outcome),
{
    step + 1 == plan_len || outcome == Some(true)
}

/// Whether read `step` of a plan of `plan_len` reads settles the reading,
/// given its outcome (see `settles`).
pub open spec fn settles_at(step: int, plan_len: int, outcome: Option<bool>) -> bool {
    step + 1 == plan_len || outcome == Some(true)
}

/// The read, from read `i` on, at which a walk over a plan of `plan_len`
/// reads stops, given each read's outcome: the first that settles.
pub open spec fn settling_read(plan_len: int, outcomes: Seq<Option<bool>>, i: int) -> int
    decreases plan_len - i,
{
    if i >= plan_len - 1 || settles_at(i, plan_len, outcomes[i]) {
        i
    } else {
        settling_read(plan_len, outcomes, i + 1)
    }
}

proof fn lemma_settling_read_first(plan_len: int, outcomes: Seq<Option<bool>>, i: int)
    requires
        0 <= i < plan_len,
    ensures
        i <= settling_read(plan_len, outcomes, i) < plan_len,
        settles_at(settling_read(plan_len, outcomes, i), plan_len, outcomes[settling_read(plan_len, outcomes, i)]),
        forall|j: int| i <= j < settling_read(plan_len, outcomes, i) ==> !settles_at(j, plan_len, #[trigger] outcomes[j]),
    decreases plan_len - i,
{
    if !(i >= plan_len - 1 || settles_at(i, plan_len, outcomes[i])) {
        lemma_settling_read_first(plan_len, outcomes, i + 1);
    }
}

/// A walk over the sources of a mode, each read in turn until one settles
/// (see `settles`), stops at the first read that settles, and always stops:
/// the last read settles whatever it gave. In `auto` mode it takes the app
/// server's reading when that read gave an `ok` reading, else the client
/// window's when that gave one, and else the reading of the pasted text,
/// which is a parse and so never fails. Every other mode reads one source.
pub proof fn lemma_read_walk(mode: Option<Seq<char>>, outcomes: Seq<Option<bool>>)
    ensures
        ({
            let plan = read_plan_of(mode);
            let n = plan.len() as int;
            let k = settling_read(n, outcomes, 0);
            &&& 0 <= k < n
            &&& settles_at(k, n, outcomes[k])
            &&& forall|j: int| 0 <= j < k ==> !settles_at(j, n, #[trigger] outcomes[j])
            &&& (mode == Some("auto"@) ==> {
                &&& plan[n - 1] == ReadSource::ClientWatch
                &&& k == (if outcomes[0] == Some(true) { 0int } else if outcomes[1] == Some(true) { 1int } else { 2int })
            })
            &&& (mode != Some("auto"@) ==> n == 1 && k == 0)
        }),
{
    let plan = read_plan_of(mode);
    let n = plan.len() as int;
    lemma_settling_read_first(n, outcomes, 0);
    if mode == Some("auto"@) {
        assert(n == 3);
        if outcomes[0] != Some(true) {
            assert(settling_read(n, outcomes, 0) == settling_read(n, outcomes, 1));
            if outcomes[1] != Some(true) {
                assert(settling_read(n, outcomes, 1) == settling_read(n, outcomes, 2));
            }
        }
    }
}

// ---------------------------------------------------------------------------
// The client window
// ---------------------------------------------------------------------------

/// The message of a client-window reading that gives no quota.
pub const CLIENT_WINDOW_UNPARSED: &'static str = "已尝试自动读取 Codex 客户端窗口，但没有解析出额度。请把 Codex 客户端打开到 Settings / Usage / Credits 页面；如果仍失败，说明客户端未向 Windows 辅助功能暴露页面文字。";

/// The reading of the client window's text taken at `updated_at_ms`: the
/// reading of that text, marked as read from the window through UI
/// automation; where it gives no quota, its message asks for the Usage page.
pub open spec fn client_window_status(text: Seq<char>, updated_at_ms: u128) -> StatusModel {
    let st = client_status(text, updated_at_ms);
    StatusModel {
        message: if st.ok { st.message } else { CLIENT_WINDOW_UNPARSED@ },
        source_mode: "client_window"@,
        auth_mode: Some("windows-ui-automation-visible-text"@),
        ..st
    }
}

/// The reading of the client window's text (see `client_window_status`).
pub fn parse_client_window_text(text: &str, updated_at_ms: u128) -> (st: CodexMeterStatus)
    ensures
        st@ == client_window_status(text@, updated_at_ms),
{
    let mut status = parse_client_usage_text_at(text, updated_at_ms);
    status.source_mode = "client_window".to_string();
    status.auth_mode = Some("windows-ui-automation-visible-text".to_string());
    if !status.ok {
        status.message = CLIENT_WINDOW_UNPARSED.to_string();
    }
    status
}

// ---------------------------------------------------------------------------
// The app server
// ---------------------------------------------------------------------------

/// What a line from the app server is to a request.
#[derive(Debug, Clone, Copy, PartialEq, Eq, Structural)]
pub enum ReplyKind {
    /// Not the reply to the request (another id, or a notification).
    Unrelated,
    /// The reply, carrying an `error` member.
    Failure,
    /// The reply, whose `result` member (or `null`) is the answer.
    Answer,
}

/// What `value` is to the request numbered `id`: its reply when its `id`
/// member is that integer, a failure when that reply has an `error` member
/// (even `null`).
pub open spec fn reply_kind(value: JsonValue, id: u64) -> ReplyKind {
    if json_i64(json_get(value, "id"@)) != Some(id as i64) || id > i64::MAX {
        ReplyKind::Unrelated
    } else if json_get(value, "error"@) is Some {
        ReplyKind::Failure
    } else {
        ReplyKind::Answer
    }
}

/// What `value` is to the request numbered `id` (see `reply_kind`).
pub fn classify_reply(value: &JsonValue, id: u64) -> (r: ReplyKind)
    ensures
        r == reply_kind(*value, id),
{
    let matches_id = match value.get("id") {
        Some(v) => match v.as_i64() {
            Some(n) => n >= 0 && n as u64 == id,
            None => false,
        },
        None => false,
    };
    if !matches_id {
        ReplyKind::Unrelated
    } else if value.get("error").is_some() {
        ReplyKind::Failure
    } else {
        ReplyKind::Answer
    }
}

/// A message the meter sends the app server.
#[derive(Debug, Clone, Copy, PartialEq, Eq, Structural)]
pub enum AppServerCall {
    /// The `initialize` request.
    Initialize,
    /// The `initialized` notice.
    Initialized,
    /// The `account/read` request.
    ReadAccount,
    /// The `account/rateLimits/read` request.
    ReadRateLimits,
    /// The `account/usage/read` request.
    ReadUsage,
}

/// The method name of a call.
pub open spec fn call_method(call: AppServerCall) -> Seq<char> {
    match call {
        AppServerCall::Initialize => "initialize"@,
        AppServerCall::Initialized => "initialized"@,
        AppServerCall::ReadAccount => "account/read"@,
        AppServerCall::ReadRateLimits => "account/rateLimits/read"@,
        AppServerCall::ReadUsage => "account/usage/read"@,
    }
}

/// The method name of a call (see `call_method`).
pub fn method_of(call: AppServerCall) -> (m: &'static str)
    ensures
        m@ == call_method(call),
{
    match call {
        AppServerCall::Initialize => "initialize",
        AppServerCall::Initialized => "initialized",
        AppServerCall::ReadAccount => "account/read",
        AppServerCall::ReadRateLimits => "account/rateLimits/read",
        AppServerCall::ReadUsage => "account/usage/read",
    }
}

/// The call that follows `last` (`None` before the first): `initialize`,
/// the `initialized` notice, the account read; then, only when an account
/// came back, the rate-limit read and the usage read; and nothing after.
pub open spec fn next_call_after(last: Option<AppServerCall>, has_account: bool) -> Option<AppServerCall> {
    match last {
        None => Some(AppServerCall::Initialize),
        Some(AppServerCall::Initialize) => Some(AppServerCall::Initialized),
        Some(AppServerCall::Initialized) => Some(AppServerCall::ReadAccount),
        Some(AppServerCall::ReadAccount) => if has_account { Some(AppServerCall::ReadRateLimits) } else { None },
        Some(AppServerCall::ReadRateLimits) => Some(AppServerCall::ReadUsage),
        Some(AppServerCall::ReadUsage) => None,
    }
}

/// The call that follows `last` (see `next_call_after`).
pub fn next_call(last: Option<AppServerCall>, has_account: bool) -> (next: Option<AppServerCall>)
    ensures
        next == next_call_after(last, has_account),
{
    match last {
        None => Some(AppServerCall::Initialize),
        Some(AppServerCall::Initialize) => Some(AppServerCall::Initialized),
        Some(AppServerCall::Initialized) => Some(AppServerCall::ReadAccount),
        Some(AppServerCall::ReadAccount) => if has_account { Some(AppServerCall::ReadRateLimits) } else { None },
        Some(AppServerCall::ReadRateLimits) => Some(AppServerCall::ReadUsage),
        Some(AppServerCall::ReadUsage) => None,
    }
}

/// The calls made in one reading, in order, when an account came back or
/// not: the rate limits and usage are read only for an account.
pub proof fn lemma_app_server_calls(has_account: bool)
    ensures
        next_call_after(None, has_account) == Some(AppServerCall::Initialize),
        next_call_after(Some(AppServerCall::Initialize), has_account) == Some(AppServerCall::Initialized),
        next_call_after(Some(AppServerCall::Initialized), has_account) == Some(AppServerCall::ReadAccount),
        !has_account ==> next_call_after(Some(AppServerCall::ReadAccount), has_account) is None,
        has_account ==> next_call_after(Some(AppServerCall::ReadAccount), has_account) == Some(
            AppServerCall::ReadRateLimits,
        ) && next_call_after(Some(AppServerCall::ReadRateLimits), has_account) == Some(AppServerCall::ReadUsage)
            && next_call_after(Some(AppServerCall::ReadUsage), has_account) is None,
{
}

/// The items joined by `sep`.
pub open spec fn joined_by(items: Seq<Seq<char>>, sep: Seq<char>) -> Seq<char>
    decreases items.len(),
{
    if items.len() == 0 {
        Seq::empty()
    } else if items.len() == 1 {
        items[0]
    } else {
        joined_by(items.drop_last(), sep) + sep + items.last()
    }
}

/// The message when no candidate program started: the places searched,
/// then what went wrong with each candidate (joined by "；"), or that no
/// candidate was found.
pub open spec fn spawn_failure_text(errors: Seq<Seq<char>>) -> Seq<char> {
    let tried = if errors.len() == 0 { "没有找到候选 codex.exe。"@ } else { joined_by(errors, "；"@) };
    "无法启动 Codex app-server。已尝试 PATH、AppData\\Local\\OpenAI\\Codex\\bin、.codex\\plugins\\.plugin-appserver。详情："@
        + tried
}

/// The strings' characters.
pub open spec fn string_views(items: Seq<String>) -> Seq<Seq<char>> {
    items.map_values(|s: String| s@)
}

/// The message when no candidate program started (see `spawn_failure_text`).
pub fn spawn_failure_message(errors: &Vec<String>) -> (m: String)
    ensures
        m@ == spawn_failure_text(string_views(errors@)),
{
    let ghost es = string_views(errors@);
    let mut out = chars_of(
        "无法启动 Codex app-server。已尝试 PATH、AppData\\Local\\OpenAI\\Codex\\bin、.codex\\plugins\\.plugin-appserver。详情：",
    );
    let ghost head = out@;
    if errors.len() == 0 {
        let mut none = chars_of("没有找到候选 codex.exe。");
        out.append(&mut none);
        return string_from_chars(&out);
    }
    let mut i: usize = 0;
    while i < errors.len()
        invariant
            i <= errors@.len(),
            errors@.len() > 0,
            es == string_views(errors@),
            out@ == head + joined_by(es.take(i as int), "；"@),
        decreases errors@.len() - i,
    {
        proof {
            assert(es.take(i + 1).drop_last() =~= es.take(i as int));
            assert(es.take(i + 1).last() == errors@[i as int]@);
        }
        if i > 0 {
            let mut sep = chars_of("；");
            out.append(&mut sep);
        }
        let mut item = chars_of(errors[i].as_str());
        out.append(&mut item);
        proof {
            if i == 0 {
                assert(joined_by(es.take(1), "；"@) == es.take(1)[0]);
            }
            assert(out@ =~= head + joined_by(es.take(i + 1), "；"@));
        }
        i = i + 1;
    }
    assert(es.take(errors@.len() as int) =~= es);
    string_from_chars(&out)
}

// ---------------------------------------------------------------------------
// Candidate programs
// ---------------------------------------------------------------------------

/// A candidate `codex` program: its path as text, and whether the path ends
/// in a file name.
#[derive(Debug, Clone)]
pub struct CandidatePath {
    pub text: String,
    pub has_file_name: bool,
}

/// The positions of the candidates that are kept, in order: a candidate is
/// kept when its path ends in a file name or is `codex` itself, and no kept
/// candidate before it has the same path, compared in ASCII lower case.
pub open spec fn kept_paths(paths: Seq<CandidatePath>) -> Seq<int>
    decreases paths.len(),
{
    if paths.len() == 0 {
        Seq::empty()
    } else {
        let before = kept_paths(paths.drop_last());
        let last = paths.last();
        let key = ascii_lowered(last.text@);
        let seen = exists|m: int|
            0 <= m < before.len() && #[trigger] ascii_lowered(paths[before[m]].text@) == key;
        if (last.has_file_name || last.text@ == "codex"@) && !seen {
            before.push(paths.len() - 1)
        } else {
            before
        }
    }
}

/// Every kept position is a position of the list.
pub proof fn lemma_kept_paths_in_range(paths: Seq<CandidatePath>)
    ensures
        forall|m: int| 0 <= m < kept_paths(paths).len() ==> 0 <= #[trigger] kept_paths(paths)[m] < paths.len(),
    decreases paths.len(),
{
    if paths.len() > 0 {
        lemma_kept_paths_in_range(paths.drop_last());
        let before = kept_paths(paths.drop_last());
        let after = kept_paths(paths);
        assert(after == before || after == before.push(paths.len() - 1));
        assert forall|m: int| 0 <= m < after.len() implies 0 <= #[trigger] after[m] < paths.len() by {
            if m < before.len() {
                assert(after[m] == before[m]);
            }
        }
    }
}

/// The key two candidates are compared by: the path in ASCII lower case.
pub open spec fn path_key(p: CandidatePath) -> Seq<char> {
    ascii_lowered(p.text@)
}

/// A candidate that may be tried: its path ends in a file name or is `codex`.
pub open spec fn keepable(p: CandidatePath) -> bool {
    p.has_file_name || p.text@ == "codex"@
}

/// The kept positions are increasing positions of the list; every kept
/// candidate may be tried; no two kept candidates have the same key; and
/// every candidate that may be tried is covered by a kept one at or before
/// it with the same key.
#[verifier::spinoff_prover]
#[verifier::rlimit(40)]
pub proof fn lemma_dedup_paths_law(paths: Seq<CandidatePath>)
    ensures
        forall|a: int, b: int| 0 <= a < b < kept_paths(paths).len() ==> kept_paths(paths)[a] < kept_paths(paths)[b],
        forall|m: int| 0 <= m < kept_paths(paths).len() ==> 0 <= #[trigger] kept_paths(paths)[m] < paths.len()
            && keepable(paths[kept_paths(paths)[m]]),
        forall|a: int, b: int|
            0 <= a < b < kept_paths(paths).len() ==> path_key(paths[#[trigger] kept_paths(paths)[a]]) != path_key(
                paths[#[trigger] kept_paths(paths)[b]],
            ),
        forall|j: int|
            0 <= j < paths.len() && keepable(#[trigger] paths[j]) ==> exists|m: int|
                0 <= m < kept_paths(paths).len() && kept_paths(paths)[m] <= j && path_key(paths[kept_paths(paths)[m]])
                    == path_key(paths[j]),
    decreases paths.len(),
{
    lemma_kept_paths_in_range(paths);
    if paths.len() > 0 {
        let d = paths.drop_last();
        lemma_dedup_paths_law(d);
        lemma_kept_paths_in_range(d);
        let before = kept_paths(d);
        let after = kept_paths(paths);
        let n = paths.len() - 1;
        assert forall|m: int| 0 <= m < before.len() implies #[trigger] paths[before[m]] == d[before[m]] by {}
        assert(after == before || after == before.push(n));
        if after != before {
            assert forall|a: int, b: int| 0 <= a < b < after.len() implies after[a] < after[b] by {
                if b < before.len() {
                } else {
                    assert(after[a] == before[a]);
                }
            }
            assert forall|m: int| 0 <= m < after.len() implies 0 <= #[trigger] after[m] < paths.len()
                && keepable(paths[after[m]]) by {
                if m < before.len() {
                    assert(after[m] == before[m]);
                }
            }
            assert forall|a: int, b: int| 0 <= a < b < after.len() implies path_key(paths[#[trigger] after[a]])
                != path_key(paths[#[trigger] after[b]]) by {
                assert(after[a] == before[a]);
                if b < before.len() {
                    assert(after[b] == before[b]);
                    assert(path_key(d[before[a]]) != path_key(d[before[b]]));
                } else {
                    assert(after[b] == n);
                    if path_key(paths[after[a]]) == path_key(paths[after[b]]) {
                        assert(ascii_lowered(paths[before[a]].text@) == ascii_lowered(paths.last().text@));
                        assert(false);
                    }
                }
            }
        }
        assert forall|j: int| 0 <= j < paths.len() && keepable(#[trigger] paths[j]) implies exists|m: int|
            0 <= m < after.len() && after[m] <= j && path_key(paths[after[m]]) == path_key(paths[j]) by {
            if j < n {
                assert(d[j] == paths[j]);
                assert(keepable(d[j]));
                let m = choose|m: int|
                    0 <= m < before.len() && before[m] <= j && path_key(d[before[m]]) == path_key(d[j]);
                assert(after[m] == before[m]);
            } else {
                if after == before {
                    let m = choose|m: int|
                        0 <= m < before.len() && #[trigger] ascii_lowered(paths[before[m]].text@) == ascii_lowered(
                            paths.last().text@,
                        );
                    assert(after[m] == before[m]);
                } else {
                    assert(after[before.len() as int] == n);
                }
            }
        }
    }
}

/// The positions of the candidates to try (see `kept_paths`).
pub fn dedup_paths(paths: &Vec<CandidatePath>) -> (kept: Vec<usize>)
    ensures
        kept@.len() == kept_paths(paths@).len(),
        forall|m: int| 0 <= m < kept@.len() ==> kept@[m] as int == #[trigger] kept_paths(paths@)[m],
{
    let mut seen: Vec<Vec<char>> = Vec::new();
    let mut kept: Vec<usize> = Vec::new();
    let mut i: usize = 0;
    while i < paths.len()
        invariant
            i <= paths@.len(),
            kept@.len() == kept_paths(paths@.take(i as int)).len(),
            seen@.len() == kept@.len(),
            forall|m: int| 0 <= m < kept@.len() ==> kept@[m] as int == #[trigger] kept_paths(paths@.take(i as int))[m],
            forall|m: int| 0 <= m < kept@.len() ==> kept@[m] < i,
            forall|m: int| 0 <= m < seen@.len() ==> #[trigger] seen@[m]@ == ascii_lowered(paths@[kept@[m] as int].text@),
        decreases paths@.len() - i,
    {
        let ghost prefix = paths@.take(i as int);
        let ghost next = paths@.take(i + 1);
        proof {
            assert(next.drop_last() =~= prefix);
            assert(next.last() == paths@[i as int]);
            lemma_kept_paths_in_range(prefix);
        }
        let text = chars_of(paths[i].text.as_str());
        let key = ascii_lowercase(&text);
        let mut found = false;
        let mut m: usize = 0;
        while m < seen.len()
            invariant
                m <= seen@.len(),
                found ==> exists|j: int| 0 <= j < m && #[trigger] seen@[j]@ == key@,
                !found ==> forall|j: int| 0 <= j < m ==> #[trigger] seen@[j]@ != key@,
            decreases seen@.len() - m,
        {
            if chars_eq(&seen[m], &key) {
                found = true;
            }
            m = m + 1;
        }
        proof {
            let before = kept_paths(prefix);
            assert forall|j: int| 0 <= j < before.len() implies #[trigger] next[before[j]] == paths@[before[j]] by {
                assert(before[j] < i);
            }
            if found {
                let j = choose|j: int| 0 <= j < seen@.len() && #[trigger] seen@[j]@ == key@;
                assert(next[before[j]] == paths@[kept@[j] as int]);
                assert(ascii_lowered(next[before[j]].text@) == ascii_lowered(next.last().text@));
            } else {
                assert forall|j: int| 0 <= j < before.len() implies #[trigger] ascii_lowered(next[before[j]].text@)
                    != ascii_lowered(next.last().text@) by {
                    assert(seen@[j]@ != key@);
                    assert(next[before[j]] == paths@[kept@[j] as int]);
                }
            }
        }
        let is_codex = str_eq(paths[i].text.as_str(), "codex");
        if !found && (paths[i].has_file_name || is_codex) {
            seen.push(key);
            kept.push(i);
        }
        i = i + 1;
    }
    assert(paths@.take(paths@.len() as int) =~= paths@);
    kept
}

/// Position `a` comes before position `b` when candidates are ordered newest
/// first: a later modification time, or the same time and an earlier
/// position.
pub open spec fn newer_first(times: Seq<i128>, a: int, b: int) -> bool {
    times[a] > times[b] || (times[a] == times[b] && a < b)
}

/// The positions of `times` (modification times, in nanoseconds from the
/// Unix epoch), newest first; equal times keep their order. Every position
/// occurs once: the positions are in range and strictly ordered.
pub fn newest_first(times: &Vec<i128>) -> (order: Vec<usize>)
    ensures
        order@.len() == times@.len(),
        forall|a: int| 0 <= a < order@.len() ==> #[trigger] order@[a] < times@.len(),
        forall|a: int, b: int|
            0 <= a < b < order@.len() ==> newer_first(times@, #[trigger] order@[a] as int, #[trigger] order@[b] as int),
{
    let mut order: Vec<usize> = Vec::new();
    let mut i: usize = 0;
    while i < times.len()
        invariant
            i <= times@.len(),
            order@.len() == i,
            forall|a: int| 0 <= a < order@.len() ==> #[trigger] order@[a] < i,
            forall|a: int, b: int|
                0 <= a < b < order@.len() ==> newer_first(times@, #[trigger] order@[a] as int, #[trigger] order@[b] as int),
        decreases times@.len() - i,
    {
        let t = times[i];
        let mut p: usize = 0;
        while p < order.len() && times[order[p]] >= t
            invariant
                i < times@.len(),
                t == times@[i as int],
                p <= order@.len(),
                forall|a: int| 0 <= a < order@.len() ==> #[trigger] order@[a] < i,
                forall|q: int| 0 <= q < p ==> newer_first(times@, #[trigger] order@[q] as int, i as int),
            decreases order@.len() - p,
        {
            p = p + 1;
        }
        let ghost old_order = order@;
        proof {
            if p < old_order.len() {
                assert(newer_first(times@, i as int, old_order[p as int] as int));
                assert forall|q: int| p <= q < old_order.len() implies newer_first(
                    times@,
                    i as int,
                    #[trigger] old_order[q] as int,
                ) by {
                    if q > p {
                        assert(newer_first(times@, old_order[p as int] as int, old_order[q] as int));
                    }
                }
            }
        }
        order.insert(p, i);
        proof {
            assert forall|a: int, b: int| 0 <= a < b < order@.len() implies newer_first(
                times@,
                #[trigger] order@[a] as int,
                #[trigger] order@[b] as int,
            ) by {
                if a < p && b < p {
                    assert(order@[a] == old_order[a] && order@[b] == old_order[b]);
                } else if a < p && b == p {
                    assert(order@[a] == old_order[a]);
                } else if a < p {
                    assert(order@[a] == old_order[a] && order@[b] == old_order[b - 1]);
                } else if a == p {
                    assert(order@[b] == old_order[b - 1]);
                } else {
                    assert(order@[a] == old_order[a - 1] && order@[b] == old_order[b - 1]);
                }
            }
            assert forall|a: int| 0 <= a < order@.len() implies #[trigger] order@[a] < i + 1 by {
                if a < p {
                    assert(order@[a] == old_order[a]);
                } else if a > p {
                    assert(order@[a] == old_order[a - 1]);
                }
            }
        }
        i = i + 1;
    }
    order
}

/// `s` begins with `prefix`.
pub open spec fn starts_with(s: Seq<char>, prefix: Seq<char>) -> bool {
    prefix.len() <= s.len() && s.take(prefix.len() as int) == prefix
}

/// A path with the first of the home folders `homes` (from `k` on) that it
/// begins with written as `%USERPROFILE%`; empty home folders are skipped.
pub open spec fn redacted_from(path: Seq<char>, homes: Seq<Seq<char>>, k: int) -> Seq<char>
    decreases homes.len() - k,
{
    if k < 0 || k >= homes.len() {
        path
    } else if homes[k].len() > 0 && starts_with(path, homes[k]) {
        "%USERPROFILE%"@ + path.skip(homes[k].len() as int)
    } else {
        redacted_from(path, homes, k + 1)
    }
}

fn starts_with_chars(s: &Vec<char>, prefix: &Vec<char>) -> (r: bool)
    ensures
        r == starts_with(s@, prefix@),
{
    if prefix.len() > s.len() {
        return false;
    }
    let mut k: usize = 0;
    while k < prefix.len()
        invariant
            prefix@.len() <= s@.len(),
            k <= prefix@.len(),
            forall|j: int| 0 <= j < k ==> s@[j] == prefix@[j],
        decreases prefix@.len() - k,
    {
        if s[k] != prefix[k] {
            assert(s@.take(prefix@.len() as int)[k as int] != prefix@[k as int]);
            return false;
        }
        k = k + 1;
    }
    assert(s@.take(prefix@.len() as int) =~= prefix@);
    true
}

/// `path` with the user's home folder hidden, for messages (see
/// `redacted_from`). `homes` are the values of `USERPROFILE` and `HOME`, in
/// that order, that are set.
pub fn redact_home(path: &str, homes: &Vec<String>) -> (r: String)
    ensures
        r@ == redacted_from(path@, string_views(homes@), 0),
{
    let ghost hs = string_views(homes@);
    let p = chars_of(path);
    let mut k: usize = 0;
    while k < homes.len()
        invariant
            k <= homes@.len(),
            hs == string_views(homes@),
            p@ == path@,
            redacted_from(path@, hs, 0) == redacted_from(path@, hs, k as int),
        decreases homes@.len() - k,
    {
        let home = chars_of(homes[k].as_str());
        assert(home@ == hs[k as int]);
        if home.len() > 0 && starts_with_chars(&p, &home) {
            let mut out = chars_of("%USERPROFILE%");
            let mut j: usize = home.len();
            let ghost head = out@;
            while j < p.len()
                invariant
                    home@.len() <= j <= p@.len(),
                    out@ == head + p@.subrange(home@.len() as int, j as int),
                decreases p@.len() - j,
            {
                out.push(p[j]);
                j = j + 1;
                assert(out@ =~= head + p@.subrange(home@.len() as int, j as int));
            }
            assert(p@.subrange(home@.len() as int, p@.len() as int) =~= p@.skip(home@.len() as int));
            return string_from_chars(&out);
        }
        k = k + 1;
    }
    string_from_chars(&p)
}

} // verus!
