use lx_codex_meter::json::{JsonNumber, JsonValue};
use lx_codex_meter::meter::LimitWindow;
use lx_codex_meter::quota::{
    classify_limit, classify_semantic, collect_limit_windows, normalize_rate_limits, parse_limit,
    NormalizedRateLimits, QuotaKind,
};

fn pct(value: f64) -> i64 {
    (value * 1_000_000.0).round() as i64
}

/// A JSON number written with a fraction (serde_json gives no `i64` for it).
fn float(x: f64) -> JsonValue {
    JsonValue::Number(JsonNumber { integer: None, millionths: Some(pct(x)) })
}

/// A JSON integer.
fn integer(n: i64) -> JsonValue {
    JsonValue::Number(JsonNumber { integer: Some(n), millionths: Some(n * 1_000_000) })
}

fn text(s: &str) -> JsonValue {
    JsonValue::String(s.to_string())
}

/// An object; serde_json walks its members in key order, so they are sorted.
fn obj(mut entries: Vec<(&str, JsonValue)>) -> JsonValue {
    entries.sort_by(|a, b| a.0.cmp(b.0));
    let mut names = Vec::new();
    let mut values = Vec::new();
    for (k, v) in entries {
        names.push(k.to_string());
        values.push(v);
    }
    JsonValue::Object(names, values)
}

fn normalized(value: JsonValue) -> NormalizedRateLimits {
    normalize_rate_limits(&collect_limit_windows(&value))
}

#[test]
fn normalizes_duration_windows_independent_of_slot_order() {
    let regular = normalized(obj(vec![
        ("primary", obj(vec![("usedPercent", float(30.0)), ("windowDurationMins", integer(300))])),
        ("secondary", obj(vec![("usedPercent", float(60.0)), ("windowDurationMins", integer(10080))])),
    ]));
    assert_eq!(regular.five_hour.unwrap().remaining_percent, Some(pct(70.0)));
    assert_eq!(regular.weekly.unwrap().remaining_percent, Some(pct(40.0)));

    let reversed = normalized(obj(vec![
        ("primary", obj(vec![("usedPercent", float(41.0)), ("windowDurationMins", integer(10080))])),
        ("secondary", obj(vec![("usedPercent", float(28.0)), ("windowDurationMins", integer(300))])),
    ]));
    assert_eq!(reversed.five_hour.unwrap().remaining_percent, Some(pct(72.0)));
    assert_eq!(reversed.weekly.unwrap().remaining_percent, Some(pct(59.0)));
}

#[test]
fn normalizes_single_known_window_without_guessing_the_missing_kind() {
    let weekly_in_primary = normalized(obj(vec![
        ("primary", obj(vec![("usedPercent", float(41.0)), ("windowDurationMins", integer(10080))])),
        ("secondary", JsonValue::Null),
    ]));
    assert!(weekly_in_primary.five_hour.is_none());
    assert_eq!(weekly_in_primary.weekly.unwrap().remaining_percent, Some(pct(59.0)));

    let weekly_in_secondary = normalized(obj(vec![
        ("primary", JsonValue::Null),
        ("secondary", obj(vec![("usedPercent", float(50.0)), ("windowDurationMins", integer(10080))])),
    ]));
    assert!(weekly_in_secondary.five_hour.is_none());
    assert!(weekly_in_secondary.weekly.is_some());

    let five_hour_only = normalized(obj(vec![(
        "primary",
        obj(vec![("usedPercent", float(20.0)), ("windowDurationMins", integer(300))]),
    )]));
    assert!(five_hour_only.five_hour.is_some());
    assert!(five_hour_only.weekly.is_none());

    let absent = normalized(obj(vec![("primary", JsonValue::Null), ("secondary", JsonValue::Null)]));
    assert!(absent.five_hour.is_none());
    assert!(absent.weekly.is_none());
}

#[test]
fn semantic_fallback_uses_upstream_identifiers_but_never_slot_names() {
    let labeled = normalized(obj(vec![
        ("primary", obj(vec![("usedPercent", float(25.0)), ("label", text("Weekly limit"))])),
        ("secondary", obj(vec![("usedPercent", float(10.0)), ("id", text("session-quota"))])),
    ]));
    assert_eq!(labeled.five_hour.unwrap().remaining_percent, Some(pct(90.0)));
    assert_eq!(labeled.weekly.unwrap().remaining_percent, Some(pct(75.0)));

    let unknown = normalized(obj(vec![(
        "primary",
        obj(vec![("usedPercent", float(25.0)), ("label", text("Flexible quota"))]),
    )]));
    assert!(unknown.five_hour.is_none());
    assert!(unknown.weekly.is_none());
}

#[test]
fn exact_duration_wins_over_conflicting_labels_and_one_window_has_one_kind() {
    let conflict = normalized(obj(vec![(
        "primary",
        obj(vec![
            ("usedPercent", float(25.0)),
            ("windowDurationMins", integer(10080)),
            ("id", text("session-quota")),
            ("label", text("5-hour limit")),
        ]),
    )]));
    assert!(conflict.five_hour.is_none());
    assert!(conflict.weekly.is_some());

    let ambiguous = normalized(obj(vec![(
        "primary",
        obj(vec![("usedPercent", float(25.0)), ("label", text("session weekly quota"))]),
    )]));
    assert!(ambiguous.five_hour.is_none());
    assert!(ambiguous.weekly.is_none());
}

#[test]
fn future_semantic_slot_is_classified_without_slot_position() {
    let limits = normalized(obj(vec![(
        "long-window",
        obj(vec![("usedPercent", float(12.0)), ("name", text("weekly"))]),
    )]));
    assert!(limits.five_hour.is_none());
    assert_eq!(limits.weekly.unwrap().remaining_percent, Some(pct(88.0)));
}

// --- further cases ---

#[test]
fn parse_limit_takes_the_stated_remaining_percentage() {
    let value = obj(vec![("usedPercent", float(30.0)), ("remainingPercent", float(65.5))]);
    let window = parse_limit("primary", Some(&value)).unwrap();
    assert_eq!(window.used_percent, Some(pct(30.0)));
    assert_eq!(window.remaining_percent, Some(pct(65.5)));
    assert_eq!(window.semantic_id, None);
    assert_eq!(window.label, "");
}

#[test]
fn parse_limit_names_an_unknown_slot_by_its_key() {
    let value = obj(vec![("usedPercent", float(12.0))]);
    let window = parse_limit("long-window", Some(&value)).unwrap();
    assert_eq!(window.semantic_id.as_deref(), Some("long-window"));
    assert_eq!(window.label, "long-window");
    assert_eq!(window.remaining_percent, Some(pct(88.0)));
}

#[test]
fn parse_limit_ignores_null_and_empty_windows() {
    assert!(parse_limit("primary", Some(&JsonValue::Null)).is_none());
    assert!(parse_limit("primary", None).is_none());
    assert!(parse_limit("primary", Some(&obj(vec![("other", integer(1))]))).is_none());
}

#[test]
fn classify_semantic_needs_exactly_one_kind() {
    let five = "5-hour".to_string();
    let weekly = "Weekly".to_string();
    let both = "session weekly".to_string();
    assert_eq!(classify_semantic(Some(&five)), Some(QuotaKind::FiveHour));
    assert_eq!(classify_semantic(Some(&weekly)), Some(QuotaKind::Weekly));
    assert_eq!(classify_semantic(Some(&both)), None);
    assert_eq!(classify_semantic(None), None);
}

fn window(duration: Option<i64>, id: Option<&str>, label: Option<&str>) -> LimitWindow {
    LimitWindow {
        label: String::new(),
        used_percent: Some(pct(10.0)),
        remaining_percent: Some(pct(90.0)),
        window_duration_mins: duration,
        resets_at: None,
        reset_text: None,
        reached_type: None,
        semantic_id: id.map(str::to_string),
        semantic_label: label.map(str::to_string),
    }
}

#[test]
fn classify_limit_ranks_duration_then_identifier_then_label() {
    assert_eq!(classify_limit(&window(Some(300), None, None)), Some((QuotaKind::FiveHour, 3)));
    assert_eq!(classify_limit(&window(Some(10080), None, None)), Some((QuotaKind::Weekly, 3)));
    assert_eq!(classify_limit(&window(Some(60), Some("weekly"), None)), Some((QuotaKind::Weekly, 2)));
    assert_eq!(classify_limit(&window(None, None, Some("short"))), Some((QuotaKind::FiveHour, 1)));
    assert_eq!(classify_limit(&window(None, None, None)), None);
}

#[test]
fn the_more_certain_window_wins() {
    let limits = vec![window(None, None, Some("weekly")), window(Some(10080), None, None)];
    let chosen = normalize_rate_limits(&limits);
    assert_eq!(chosen.weekly.unwrap().window_duration_mins, Some(10080));
    assert!(chosen.five_hour.is_none());
}
