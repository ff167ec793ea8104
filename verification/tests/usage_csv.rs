use lx_codex_meter::csv::{
    build_csv, csv_escape, localized_error, optional_number, prepare_export, sanitize_file_name, UsageCsvRow,
};

fn pct(value: f64) -> i64 {
    (value * 1_000_000.0).round() as i64
}

fn sample_row() -> UsageCsvRow {
    UsageCsvRow {
        start_time: "2026/07/16 01:35".to_string(),
        end_time: Some("2026/07/16 01:44".to_string()),
        duration_seconds: 540,
        weekly_consumed_percent: Some(pct(3.2)),
        five_hour_consumed_percent: None,
        end_weekly_remaining_percent: Some(pct(95.0)),
        end_five_hour_remaining_percent: None,
        is_estimated: false,
        is_complete: true,
    }
}

#[test]
fn chinese_csv_has_bom_crlf_numeric_and_empty_nulls_without_status() {
    let csv = build_csv(&vec![sample_row()], "zh");
    assert!(csv.starts_with('\u{feff}'));
    assert!(csv.contains("开始时间,结束时间,持续秒数"));
    assert!(csv.contains(",3.2,,95,,false,true\r\n"));
    assert!(!csv.contains("状态"));
    assert_eq!(csv.matches("\r\n").count(), 2);
}

#[test]
fn english_headers_and_csv_escaping_are_correct() {
    let mut row = sample_row();
    row.start_time = "a,\"b\"\nline".to_string();
    row.end_time = None;
    let csv = build_csv(&vec![row], "en");
    assert!(csv.contains("Start time,End time,Duration seconds"));
    assert!(csv.contains("\"a,\"\"b\"\"\nline\","));
    assert!(!csv.contains("Status"));
}

// --- further cases ---

fn text(v: Vec<char>) -> String {
    v.into_iter().collect()
}

#[test]
fn escaping_quotes_only_when_needed() {
    assert_eq!(text(csv_escape(&"plain".chars().collect())), "plain");
    assert_eq!(text(csv_escape(&"a\"b".chars().collect())), "\"a\"\"b\"");
    assert_eq!(text(csv_escape(&"x\ry".chars().collect())), "\"x\ry\"");
}

#[test]
fn optional_numbers_are_short_decimals_or_empty() {
    assert_eq!(text(optional_number(Some(pct(3.2)))), "3.2");
    assert_eq!(text(optional_number(Some(pct(95.0)))), "95");
    assert_eq!(text(optional_number(Some(-pct(0.25)))), "-0.25");
    assert_eq!(text(optional_number(None)), "");
}

#[test]
fn errors_follow_the_language() {
    assert_eq!(localized_error("zh", "中", "en"), "中");
    assert_eq!(localized_error("en", "中", "en"), "en");
    assert_eq!(localized_error("fr", "中", "en"), "en");
}

#[test]
fn export_needs_rows() {
    assert_eq!(prepare_export(&vec![], "zh", "x.csv"), Err("没有可导出的日志".to_string()));
    assert_eq!(prepare_export(&vec![], "en", "x.csv"), Err("No usage logs to export".to_string()));
    let (csv, name) = prepare_export(&vec![sample_row()], "en", "log.csv").unwrap();
    assert!(csv.starts_with('\u{feff}'));
    assert_eq!(name, sanitize_file_name("log.csv", "en"));
}

#[test]
fn file_names_are_made_safe() {
    let name = sanitize_file_name("a/b:c", "en");
    assert!(!name.contains('/') && !name.contains(':'));
    assert!(name.ends_with(".csv"));
    assert!(!sanitize_file_name("", "en").is_empty());
}
