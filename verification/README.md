# lx_codex_meter

The verified core of LX Codex Meter, a Windows desktop meter for Codex quotas
(the 5-hour and weekly windows, credits, and a log of how much quota each
working session consumed). The library is written in Verus; every function in
`src/` carries a contract that Verus proves.

Percentages and credit amounts are whole millionths (`i64`), so that every
comparison and sum is exact.

## Layout

- `src/text.rs`, `src/fixed.rs` — character sequences, trimming, searching,
  ASCII case, and the decimal text of fixed-point values.
- `src/json.rs` — the JSON values the quota logic reads.
- `src/meter.rs` — limit windows and readings, and the reading built from the
  Codex app server's replies.
- `src/quota.rs` — classifying rate-limit windows as the 5-hour or the weekly
  quota and picking one window per quota.
- `src/usage_text.rs` — the reading taken from the visible text of the Codex
  Usage page.
- `src/source.rs` — which sources a source mode reads, the client-window
  reading, matching app-server replies, and the candidate `codex` programs.
- `src/task_log.rs`, `src/task_log_laws.rs` — the usage log: snapshots,
  consumption per task, idle and exit handling, and the laws it keeps.
- `src/runtime.rs` — the usage runtime: recent readings, the final reading
  after Codex stops, and the log behind it.
- `src/csv.rs` — CSV export of the log.
- `src/desktop.rs` — process detection, the process watcher, project links,
  tray labels and configuration defaults.
- `src/clock.rs` — the system clock.
- `app/` — the Tauri shell: windows, tray, child processes, files and the
  update check, acting on the library's decisions.
- `tests/` — tests of the library on concrete values.
