use lx_codex_meter::json::{JsonNumber, JsonValue};
use lx_codex_meter::source::{
    method_of, newest_first, next_call, AppServerCall,
    classify_reply, dedup_paths, parse_client_window_text, read_plan, redact_home, settles,
    spawn_failure_message, CandidatePath, ReadSource, ReplyKind, CLIENT_WINDOW_UNPARSED,
};

fn integer(n: i64) -> JsonValue {
    JsonValue::Number(JsonNumber { integer: Some(n), millionths: Some(n * 1_000_000) })
}

fn obj(entries: Vec<(&str, JsonValue)>) -> JsonValue {
    let mut names = Vec::new();
    let mut values = Vec::new();
    for (k, v) in entries {
        names.push(k.to_string());
        values.push(v);
    }
    JsonValue::Object(names, values)
}

#[test]
fn source_modes_choose_their_sources() {
    assert_eq!(
        read_plan(&Some("auto".to_string())),
        vec![ReadSource::AppServer, ReadSource::ClientWindow, ReadSource::ClientWatch]
    );
    assert_eq!(read_plan(&Some("client_window".to_string())), vec![ReadSource::ClientWindow]);
    assert_eq!(read_plan(&Some("client_watch".to_string())), vec![ReadSource::ClientWatch]);
    assert_eq!(read_plan(&Some("app_server".to_string())), vec![ReadSource::AppServer]);
    assert_eq!(read_plan(&Some("other".to_string())), vec![ReadSource::AppServer]);
    assert_eq!(read_plan(&None), vec![ReadSource::AppServer]);
}

#[test]
fn auto_mode_falls_through_until_a_reading_is_ok() {
    assert!(!settles(0, 3, None));
    assert!(!settles(0, 3, Some(false)));
    assert!(settles(1, 3, Some(true)));
    assert!(settles(2, 3, None));
    assert!(settles(0, 1, None));
}

#[test]
fn client_window_readings_are_marked() {
    let ok = parse_client_window_text("Weekly limit used 59%", 11);
    assert!(ok.ok);
    assert_eq!(ok.source_mode, "client_window");
    assert_eq!(ok.auth_mode.as_deref(), Some("windows-ui-automation-visible-text"));
    assert_eq!(ok.message, "OK");
    assert_eq!(ok.updated_at_ms, 11);

    let empty = parse_client_window_text("nothing", 11);
    assert!(!empty.ok);
    assert_eq!(empty.message, CLIENT_WINDOW_UNPARSED);
}

#[test]
fn replies_are_matched_by_id() {
    assert_eq!(classify_reply(&obj(vec![("id", integer(3)), ("result", integer(1))]), 3), ReplyKind::Answer);
    assert_eq!(classify_reply(&obj(vec![("id", integer(3)), ("error", JsonValue::Null)]), 3), ReplyKind::Failure);
    assert_eq!(classify_reply(&obj(vec![("id", integer(2)), ("result", integer(1))]), 3), ReplyKind::Unrelated);
    assert_eq!(classify_reply(&obj(vec![("method", JsonValue::Null)]), 3), ReplyKind::Unrelated);
}

#[test]
fn spawn_failure_lists_what_was_tried() {
    let none = spawn_failure_message(&vec![]);
    assert!(none.ends_with("详情：没有找到候选 codex.exe。"));
    let two = spawn_failure_message(&vec!["a => x".to_string(), "b => y".to_string()]);
    assert!(two.starts_with("无法启动 Codex app-server。"));
    assert!(two.ends_with("详情：a => x；b => y"));
}

fn candidate(text: &str, has_file_name: bool) -> CandidatePath {
    CandidatePath { text: text.to_string(), has_file_name }
}

#[test]
fn candidate_paths_are_deduplicated_without_case() {
    let paths = vec![
        candidate("C:\\Bin\\codex.exe", true),
        candidate("c:\\bin\\CODEX.EXE", true),
        candidate("C:\\", false),
        candidate("codex", false),
        candidate("D:\\codex.exe", true),
    ];
    assert_eq!(dedup_paths(&paths), vec![0, 3, 4]);
}

#[test]
fn home_folders_are_hidden() {
    let homes = vec!["C:\\Users\\me".to_string()];
    assert_eq!(redact_home("C:\\Users\\me\\bin\\codex.exe", &homes), "%USERPROFILE%\\bin\\codex.exe");
    assert_eq!(redact_home("D:\\codex.exe", &homes), "D:\\codex.exe");
    assert_eq!(redact_home("x", &vec![String::new()]), "x");
    assert_eq!(
        redact_home("/home/me/codex", &vec!["C:\\Users\\me".to_string(), "/home/me".to_string()]),
        "%USERPROFILE%/codex"
    );
}

#[test]
fn app_server_calls_follow_the_account() {
    assert_eq!(next_call(None, false), Some(AppServerCall::Initialize));
    assert_eq!(next_call(Some(AppServerCall::Initialize), false), Some(AppServerCall::Initialized));
    assert_eq!(next_call(Some(AppServerCall::Initialized), false), Some(AppServerCall::ReadAccount));
    assert_eq!(next_call(Some(AppServerCall::ReadAccount), false), None);
    assert_eq!(next_call(Some(AppServerCall::ReadAccount), true), Some(AppServerCall::ReadRateLimits));
    assert_eq!(next_call(Some(AppServerCall::ReadRateLimits), true), Some(AppServerCall::ReadUsage));
    assert_eq!(next_call(Some(AppServerCall::ReadUsage), true), None);
    assert_eq!(method_of(AppServerCall::ReadAccount), "account/read");
    assert_eq!(method_of(AppServerCall::ReadRateLimits), "account/rateLimits/read");
    assert_eq!(method_of(AppServerCall::ReadUsage), "account/usage/read");
    assert_eq!(method_of(AppServerCall::Initialized), "initialized");
}

#[test]
fn candidates_are_ordered_newest_first_keeping_ties() {
    assert_eq!(newest_first(&vec![5, 9, 5, -1, 9]), vec![1, 4, 0, 2, 3]);
    assert_eq!(newest_first(&vec![]), Vec::<usize>::new());
}
