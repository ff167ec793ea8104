use lx_codex_meter::json::{JsonNumber, JsonValue};
use lx_codex_meter::meter::{
    find_credit_number, first_number, missing_account_status, parse_limit, select_codex_rate_limits,
    status_from_replies,
};
use lx_codex_meter::usage_text::{
    clamp_percent, extract_percent_numbers, extract_plain_numbers, extract_reset_text, normalized_lines,
    numeral_value, parse_client_usage_text, parse_client_usage_text_at, parse_credits, parse_percent_window,
    parse_plan_type, parse_reset_credit_count, parse_used_remaining_from_block, CLIENT_TEXT_MISSING,
    CLIENT_TEXT_UNPARSED,
};

fn pct(value: f64) -> i64 {
    (value * 1_000_000.0).round() as i64
}

fn whole(millionths: i64) -> i32 {
    (millionths as f64 / 1_000_000.0).round() as i32
}

fn chars(s: &str) -> Vec<char> {
    s.chars().collect()
}

fn lines(text: &str) -> Vec<Vec<char>> {
    normalized_lines(&chars(text))
}

fn float(x: f64) -> JsonValue {
    JsonValue::Number(JsonNumber { integer: None, millionths: Some(pct(x)) })
}

fn integer(n: i64) -> JsonValue {
    JsonValue::Number(JsonNumber { integer: Some(n), millionths: Some(n * 1_000_000) })
}

fn text(s: &str) -> JsonValue {
    JsonValue::String(s.to_string())
}

fn obj(mut entries: Vec<(&str, JsonValue)>) -> JsonValue {
    entries.sort_by(|a, b| a.0.cmp(b.0));
    let mut names = Vec::new();
    let mut values = Vec::new();
    for (k, v) in entries {
        names.push(k.to_string());
        values.push(v);
    }
    JsonValue::Object(names, values)
}

#[test]
fn parses_client_watch_text() {
    let text = "ChatGPT Plus\n5-hour limit remaining 72% resets at 23:18\nWeekly limit used 59%\nCredits balance 12 of 30\nReset credits 2";
    let status = parse_client_usage_text(text.to_string());
    assert!(status.ok);
    assert_eq!(status.plan_type.as_deref(), Some("plus"));
    assert_eq!(whole(status.primary.unwrap().remaining_percent.unwrap()), 72);
    assert_eq!(whole(status.secondary.unwrap().remaining_percent.unwrap()), 41);
    assert_eq!(whole(status.credit_balance.unwrap()), 12);
    assert_eq!(whole(status.credit_limit.unwrap()), 30);
    assert_eq!(status.reset_credits_available, Some(2));
}

#[test]
fn selects_codex_bucket() {
    let value = obj(vec![(
        "rateLimitsByLimitId",
        obj(vec![
            ("other", obj(vec![("primary", obj(vec![("usedPercent", integer(90))]))])),
            ("codex", obj(vec![("primary", obj(vec![("usedPercent", integer(35)), ("windowDurationMins", integer(300))]))])),
        ]),
    )]);
    let selected = select_codex_rate_limits(&value);
    let used = selected.get("primary").and_then(|p| p.get("usedPercent")).and_then(|v| v.as_i64());
    assert_eq!(used, Some(35));
}

// --- the visible-text reading ---

#[test]
fn client_text_window_details() {
    let text = "ChatGPT Plus\n5-hour limit remaining 72% resets at 23:18\nWeekly limit used 59%\nCredits balance 12 of 30\nReset credits 2";
    let status = parse_client_usage_text_at(text, 42);
    assert_eq!(status.updated_at_ms, 42);
    assert_eq!(status.source_mode, "client_watch");
    assert_eq!(status.auth_mode.as_deref(), Some("client-visible-text"));
    assert_eq!(status.message, "OK");
    let primary = status.primary.unwrap();
    assert_eq!(primary.label, "5小时");
    assert_eq!(primary.used_percent, Some(pct(28.0)));
    assert_eq!(primary.window_duration_mins, Some(300));
    assert_eq!(primary.reset_text.as_deref(), Some("resets at 23:18 Weekly limit used 59% Credits ba"));
    let secondary = status.secondary.unwrap();
    assert_eq!(secondary.label, "周额度");
    assert_eq!(secondary.used_percent, Some(pct(59.0)));
    assert_eq!(secondary.window_duration_mins, Some(10080));
    assert_eq!(secondary.reset_text.as_deref(), Some("Reset credits 2"));
}

#[test]
fn blank_text_asks_for_the_usage_page() {
    let status = parse_client_usage_text_at("  \n\t ", 7);
    assert!(!status.ok);
    assert_eq!(status.message, CLIENT_TEXT_MISSING);
    assert!(status.primary.is_none() && status.plan_type.is_none());
    assert_eq!(status.updated_at_ms, 7);
}

#[test]
fn text_without_quota_is_not_ok() {
    let status = parse_client_usage_text_at("Hello there\nnothing here", 7);
    assert!(!status.ok);
    assert_eq!(status.message, CLIENT_TEXT_UNPARSED);
}

#[test]
fn a_lone_percentage_is_taken_as_remaining() {
    let block = chars("Session 30%");
    assert_eq!(parse_used_remaining_from_block(&block), Some((pct(70.0), pct(30.0))));
    let used = chars("Session usage 30%");
    assert_eq!(parse_used_remaining_from_block(&used), Some((pct(30.0), pct(70.0))));
    assert_eq!(parse_used_remaining_from_block(&chars("no number")), None);
}

#[test]
fn percentages_above_one_hundred_are_clamped() {
    let block = chars("weekly used 150%");
    assert_eq!(parse_used_remaining_from_block(&block), Some((pct(100.0), 0)));
    assert_eq!(clamp_percent(-5), 0);
    assert_eq!(clamp_percent(pct(150.0)), pct(100.0));
    assert_eq!(clamp_percent(pct(42.5)), pct(42.5));
}

#[test]
fn percent_numbers_need_a_percent_sign_and_one_dot() {
    assert_eq!(extract_percent_numbers(&chars("a 12 % b 3.5% c 1.2.3% d 7 e .5%")), vec![pct(12.0), pct(3.5), pct(5.0)]);
    assert_eq!(extract_percent_numbers(&chars("no percent 40")), Vec::<i64>::new());
}

#[test]
fn plain_numbers_drop_commas() {
    assert_eq!(extract_plain_numbers(&chars("1,234.5 of 2,000")), vec![pct(1234.5), pct(2000.0)]);
    assert_eq!(extract_plain_numbers(&chars(", . 1.2.3 .5")), vec![pct(0.5)]);
}

#[test]
fn numerals_keep_six_places() {
    assert_eq!(numeral_value(&chars("12.3456789")), 12_345_678);
    assert_eq!(numeral_value(&chars("7")), 7_000_000);
    assert_eq!(numeral_value(&chars("99999999999999")), i64::MAX);
}

#[test]
fn reset_text_counts_the_byte_offset_in_characters() {
    assert_eq!(
        extract_reset_text(&chars("Weekly 40% resets Monday")),
        Some("resets Monday".to_string())
    );
    // "周" takes three bytes, so the text starts two characters after the marker.
    assert_eq!(extract_reset_text(&chars("周 reset soon")), Some("set soon".to_string()));
    assert_eq!(extract_reset_text(&chars("nothing")), None);
}

#[test]
fn windows_are_found_by_keyword() {
    let ls = lines("Usage\nWeekly\nremaining 33%\nother");
    let window = parse_percent_window(&ls, "周额度", &vec!["weekly"], Some(10080)).unwrap();
    assert_eq!(window.remaining_percent, Some(pct(33.0)));
    assert_eq!(window.used_percent, Some(pct(67.0)));
    assert!(parse_percent_window(&ls, "5小时", &vec!["5-hour"], Some(300)).is_none());
}

#[test]
fn credits_take_balance_and_limit() {
    assert_eq!(parse_credits(&lines("Credits 5 / 40")), (Some(pct(5.0)), Some(pct(40.0))));
    assert_eq!(parse_credits(&lines("Credits monthly limit 100 used 20")), (Some(pct(100.0)), Some(pct(20.0))));
    assert_eq!(parse_credits(&lines("Credits left 3")), (Some(pct(3.0)), None));
    assert_eq!(parse_credits(&lines("no credit info")), (None, None));
}

#[test]
fn reset_credit_count_is_rounded() {
    assert_eq!(parse_reset_credit_count(&lines("Reset credits 2.5")), Some(3));
    assert_eq!(parse_reset_credit_count(&lines("重置券 1.49")), Some(1));
    assert_eq!(parse_reset_credit_count(&lines("Reset credits\nnone")), None);
}

#[test]
fn plan_names_are_found_in_order() {
    assert_eq!(parse_plan_type(&lines("Team workspace\nPro")), Some("team".to_string()));
    assert_eq!(parse_plan_type(&lines("nothing")), None);
}

#[test]
fn lines_are_trimmed_and_blank_ones_dropped() {
    let ls = lines("  a\u{a0}b \r\n\n \u{a0}\nc");
    assert_eq!(ls, vec![chars("a b"), chars("c")]);
}

// --- the app-server replies ---

#[test]
fn first_number_walks_objects_and_arrays() {
    let value = obj(vec![("a", text("x")), ("b", JsonValue::Array(vec![JsonValue::Null, float(2.5)]))]);
    assert_eq!(first_number(&value), Some(pct(2.5)));
    assert_eq!(first_number(&text("x")), None);
}

#[test]
fn credit_numbers_are_found_by_key_words() {
    let value = obj(vec![("credits", obj(vec![("creditBalance", float(12.0)), ("creditLimit", integer(30))]))]);
    assert_eq!(find_credit_number(Some(&value), &vec!["credit", "balance"]), Some(pct(12.0)));
    assert_eq!(find_credit_number(Some(&value), &vec!["credit", "limit"]), Some(pct(30.0)));
    assert_eq!(find_credit_number(Some(&value), &vec!["credit", "remaining"]), None);
    assert_eq!(find_credit_number(None, &vec!["credit"]), None);
}

#[test]
fn slot_limit_uses_the_used_percentage() {
    let value = obj(vec![("usedPercent", float(35.0)), ("windowDurationMins", integer(300)), ("resetsAt", integer(99))]);
    let window = parse_limit("主额度", Some(&value)).unwrap();
    assert_eq!(window.label, "主额度");
    assert_eq!(window.remaining_percent, Some(pct(65.0)));
    assert_eq!(window.resets_at, Some(99));
    assert!(parse_limit("主额度", Some(&JsonValue::Null)).is_none());
}

#[test]
fn missing_account_asks_to_sign_in() {
    let account = obj(vec![("account", JsonValue::Null)]);
    let status = missing_account_status(&account, "codex", 5).unwrap();
    assert!(!status.ok);
    assert_eq!(status.message, "已启动 Codex app-server（codex），但未返回账号。请确认 Codex 客户端已登录。");
    let signed_in = obj(vec![("account", obj(vec![("type", text("chatgpt"))]))]);
    assert!(missing_account_status(&signed_in, "codex", 5).is_none());
}

#[test]
fn replies_build_the_reading() {
    let account = obj(vec![("account", obj(vec![("type", text("chatgpt")), ("planType", text("plus"))]))]);
    let limits = obj(vec![
        ("rateLimits", obj(vec![
            ("primary", obj(vec![("usedPercent", float(30.0)), ("windowDurationMins", integer(300))])),
            ("secondary", obj(vec![("usedPercent", float(60.0)), ("windowDurationMins", integer(10080))])),
        ])),
        ("rateLimitResetCredits", obj(vec![("availableCount", integer(1))])),
    ]);
    let status = status_from_replies(&account, &limits, None, "codex", 9);
    assert!(status.ok);
    assert_eq!(status.auth_mode.as_deref(), Some("chatgpt"));
    assert_eq!(status.plan_type.as_deref(), Some("plus"));
    assert_eq!(status.primary.unwrap().remaining_percent, Some(pct(70.0)));
    assert_eq!(status.secondary.unwrap().remaining_percent, Some(pct(40.0)));
    assert_eq!(status.reset_credits_available, Some(1));
    assert_eq!(status.updated_at_ms, 9);

    let empty = status_from_replies(&account, &obj(vec![]), None, "codex", 9);
    assert!(!empty.ok);
    assert_eq!(empty.message, "已连接 Codex app-server（codex），但没有返回可显示的额度字段。");
}
