use history_viewer::json::JsonValue;
use history_viewer::models::ClaudeMessage;
use history_viewer::search::{
    apply_search_filters, apply_search_filters_for_query, build_matcher, content_matches_scope,
    filter_value_to_string, has_errors, has_file_changes, has_tool_calls, matches_filters,
    parse_filter_date, parse_search_scope, search_in_file, search_in_value, search_messages,
    select_latest, validate_search_filters, LogFile, Matcher, MessageContent, RawLogEntry,
    SearchScope,
};

fn json(text: &str) -> JsonValue {
    JsonValue::parse_text(text).expect("fixture should be JSON")
}

fn matcher(q: &str) -> Matcher {
    build_matcher(q).expect("matcher should build")
}

fn entry(uuid: Option<&str>, ty: &str, ts: Option<&str>, content: &str) -> RawLogEntry {
    RawLogEntry {
        uuid: uuid.map(|u| u.to_string()),
        parent_uuid: None,
        session_id: Some("session-1".to_string()),
        timestamp: ts.map(|t| t.to_string()),
        message_type: ty.to_string(),
        message: Some(MessageContent {
            role: ty.to_string(),
            content: json(content),
            id: None,
            model: None,
            stop_reason: None,
            usage: None,
        }),
        tool_use: None,
        tool_use_result: None,
        is_sidechain: None,
        cost_usd: None,
        duration_ms: None,
    }
}

fn user_line(uuid: &str, text: &str) -> RawLogEntry {
    entry(
        Some(uuid),
        "user",
        Some("2025-06-26T10:00:00Z"),
        &JsonValue::Str(text.to_string()).to_json_text(),
    )
}

fn assistant_line(uuid: &str, content: &str) -> RawLogEntry {
    entry(Some(uuid), "assistant", Some("2025-06-26T10:01:00Z"), content)
}

fn one_file(entries: Vec<RawLogEntry>) -> Vec<LogFile> {
    vec![LogFile {
        project_name: Some("test-project".to_string()),
        entries: entries.into_iter().map(Some).collect(),
    }]
}

fn message(ty: &str, ts: &str, content: Option<&str>) -> ClaudeMessage {
    let mut m = history_viewer::models::build_provider_message(
        "viewer",
        "m".to_string(),
        "s",
        ts.to_string(),
        ty,
        Some(ty),
        content.map(json),
        None,
    );
    m.provider = None;
    m
}

#[test]
fn test_search_messages_basic() {
    let files = one_file(vec![
        user_line("uuid-1", "Hello Rust programming"),
        assistant_line("uuid-2", r#"[{"type":"text","text":"Rust is great!"}]"#),
    ]);
    let em = matcher("error");
    let messages = search_messages(&files, &json("{}"), None, &matcher("Rust"), &em)
        .expect("search should succeed");
    assert_eq!(messages.len(), 2);
    // newest first
    assert_eq!(messages[0].uuid, "uuid-2");
    assert_eq!(messages[1].project_name.as_deref(), Some("test-project"));
}

#[test]
fn test_search_messages_case_insensitive() {
    let files = one_file(vec![user_line("uuid-1", "HELLO World")]);
    let em = matcher("error");
    let messages = search_messages(&files, &json("{}"), None, &matcher("hello"), &em)
        .expect("search should succeed");
    assert_eq!(messages.len(), 1);
}

#[test]
fn test_search_messages_no_results() {
    let files = one_file(vec![user_line("uuid-1", "Hello World")]);
    let em = matcher("error");
    let messages = search_messages(&files, &json("{}"), None, &matcher("nonexistent"), &em)
        .expect("search should succeed");
    assert!(messages.is_empty());
}

#[test]
fn test_search_messages_empty_projects_dir() {
    let em = matcher("error");
    let messages = search_messages(&Vec::new(), &json("{}"), None, &matcher("test"), &em)
        .expect("search should succeed");
    assert!(messages.is_empty());
}

#[test]
fn test_search_messages_invalid_date_filter_returns_error() {
    let em = matcher("error");
    let result = search_messages(
        &Vec::new(),
        &json(r#"{ "dateRange": ["invalid-date", "2026-02-20T00:00:00Z"] }"#),
        None,
        &matcher("test"),
        &em,
    );
    assert!(result.is_err());
    assert!(result.err().unwrap_or_default().contains("Invalid dateRange start"));
}

#[test]
fn test_search_scope_text_excludes_tool_results() {
    let files = one_file(vec![assistant_line(
        "uuid-1",
        r#"[{"type":"text","text":"plain response"},{"type":"tool_result","content":"needle from command output"}]"#,
    )]);
    let em = matcher("error");
    let result = search_messages(&files, &json(r#"{"searchScope": "text"}"#), None, &matcher("needle"), &em)
        .expect("search should succeed");
    assert!(result.is_empty());
}

#[test]
fn test_search_scope_tool_results_matches_tool_results() {
    let files = one_file(vec![assistant_line(
        "uuid-1",
        r#"[{"type":"text","text":"plain response"},{"type":"tool_result","content":"needle from command output"}]"#,
    )]);
    let em = matcher("error");
    let result = search_messages(
        &files,
        &json(r#"{"searchScope": "textToolResults"}"#),
        None,
        &matcher("needle"),
        &em,
    )
    .expect("search should succeed");
    assert_eq!(result.len(), 1);
}

#[test]
fn search_messages_respects_limit_newest_first() {
    let files = one_file(vec![
        entry(Some("a"), "user", Some("2025-01-01T00:00:00Z"), r#""needle a""#),
        entry(Some("b"), "user", Some("2025-03-01T00:00:00Z"), r#""needle b""#),
        entry(Some("c"), "user", Some("2025-02-01T00:00:00Z"), r#""needle c""#),
    ]);
    let em = matcher("error");
    let result = search_messages(&files, &json("{}"), Some(2), &matcher("needle"), &em)
        .expect("search should succeed");
    let ids: Vec<&str> = result.iter().map(|m| m.uuid.as_str()).collect();
    assert_eq!(ids, vec!["b", "c"]);
}

#[test]
fn matcher_ignores_ascii_case_only() {
    let m = matcher("straße");
    assert!(search_in_value(&json(r#""STRAßE""#), &m));
    assert!(!search_in_value(&json(r#""STRASSE""#), &m));
    let empty = matcher("");
    assert!(search_in_value(&json(r#""anything""#), &empty));
    assert!(!search_in_value(&json("42"), &empty));
}

#[test]
fn search_in_value_walks_arrays_and_objects() {
    let m = matcher("deep");
    assert!(search_in_value(&json(r#"{"a":[1,{"b":"very DEEP text"}]}"#), &m));
    assert!(!search_in_value(&json(r#"{"deep":[1,{"b":"shallow"}]}"#), &m));
}

#[test]
fn content_scopes_pick_their_blocks() {
    let m = matcher("needle");
    let thinking = json(r#"[{"type":"thinking","thinking":"a needle here"}]"#);
    assert!(!content_matches_scope(&thinking, &m, SearchScope::Text));
    assert!(content_matches_scope(&thinking, &m, SearchScope::TextThinking));
    assert!(content_matches_scope(&thinking, &m, SearchScope::All));
    let tool = json(r#"[{"type":"tool_use","name":"Bash","input":{"command":"grep needle"}}]"#);
    assert!(!content_matches_scope(&tool, &m, SearchScope::Text));
    assert!(content_matches_scope(&tool, &m, SearchScope::TextTools));
    assert!(!content_matches_scope(&tool, &m, SearchScope::TextToolResults));
    let result = json(r#"{"type":"code_execution_result","content":"needle"}"#);
    assert!(content_matches_scope(&result, &m, SearchScope::TextToolResults));
    assert!(content_matches_scope(&json(r#""plain needle""#), &m, SearchScope::Text));
}

#[test]
fn parse_search_scope_reads_known_names() {
    assert_eq!(parse_search_scope(&json(r#"{"searchScope":"text"}"#)), SearchScope::Text);
    assert_eq!(parse_search_scope(&json(r#"{"searchScope":"textThinking"}"#)), SearchScope::TextThinking);
    assert_eq!(parse_search_scope(&json(r#"{"searchScope":"textTools"}"#)), SearchScope::TextTools);
    assert_eq!(
        parse_search_scope(&json(r#"{"searchScope":"textToolResults"}"#)),
        SearchScope::TextToolResults
    );
    assert_eq!(parse_search_scope(&json(r#"{"searchScope":"other"}"#)), SearchScope::All);
    assert_eq!(parse_search_scope(&json("{}")), SearchScope::All);
}

#[test]
fn validate_search_filters_reports_each_error() {
    assert!(validate_search_filters(&json("[1,2]")).is_ok());
    assert!(validate_search_filters(&json(r#"{"searchScope":"all"}"#)).is_ok());
    assert_eq!(
        validate_search_filters(&json(r#"{"searchScope":"bogus"}"#)),
        Err("Invalid searchScope filter: bogus (expected text, textThinking, textTools, textToolResults, or all)".to_string())
    );
    assert_eq!(
        validate_search_filters(&json(r#"{"dateRange":["2026-01-01T00:00:00Z"]}"#)),
        Err("Invalid dateRange filter: expected [start, end], got 1 item(s)".to_string())
    );
    assert_eq!(
        validate_search_filters(&json(r#"{"dateRange":[5, "2026-01-01T00:00:00Z"]}"#)),
        Err("Invalid dateRange start: 5 (expected RFC3339 datetime)".to_string())
    );
    assert_eq!(
        validate_search_filters(&json(r#"{"dateRange":["2026-01-01T00:00:00Z", "soon"]}"#)),
        Err("Invalid dateRange end: soon (expected RFC3339 datetime)".to_string())
    );
    assert_eq!(
        validate_search_filters(&json(r#"{"dateRange":["2026-02-01T00:00:00Z", "2026-01-01T00:00:00Z"]}"#)),
        Err("Invalid dateRange filter: start (2026-02-01T00:00:00Z) is after end (2026-01-01T00:00:00Z)".to_string())
    );
    assert!(validate_search_filters(&json(
        r#"{"dateRange":["2026-01-01T00:00:00+02:00", "2025-12-31T23:00:00Z"]}"#
    ))
    .is_ok());
}

#[test]
fn filter_dates_and_texts() {
    assert!(parse_filter_date(&json(r#""2026-01-01T00:00:00Z""#)).is_some());
    assert!(parse_filter_date(&json(r#""2026-01-01""#)).is_none());
    assert!(parse_filter_date(&json("7")).is_none());
    assert_eq!(filter_value_to_string(&json(r#""x y""#)), "x y");
    assert_eq!(filter_value_to_string(&json("[1,true]")), "[1,true]");
}

#[test]
fn message_kinds_are_recognized() {
    let em = matcher("error");
    let tool = message("assistant", "2026-01-01T00:00:00Z", Some(r#"[{"type":"tool_use","name":"Edit","input":{}}]"#));
    assert!(has_tool_calls(&tool));
    assert!(has_file_changes(&tool));
    assert!(!has_errors(&tool, &em));
    let read = message("assistant", "2026-01-01T00:00:00Z", Some(r#"[{"type":"tool_use","name":"Read","input":{}}]"#));
    assert!(!has_file_changes(&read));
    let failing = message("user", "2026-01-01T00:00:00Z", Some(r#"[{"type":"tool_result","content":"ERROR: no such file"}]"#));
    assert!(has_errors(&failing, &em));
    assert!(has_tool_calls(&failing));
    let plain = message("user", "2026-01-01T00:00:00Z", Some(r#""hello""#));
    assert!(!has_tool_calls(&plain));
    assert!(!has_errors(&plain, &em));
    let typed_error = message("error", "2026-01-01T00:00:00Z", None);
    assert!(has_errors(&typed_error, &em));
}

#[test]
fn matches_filters_checks_each_filter() {
    let em = matcher("error");
    let mut m = message("user", "2026-01-15T00:00:00Z", Some(r#""hello""#));
    m.project_name = Some("alpha".to_string());
    assert!(matches_filters(&m, &json("null"), &em));
    assert!(matches_filters(&m, &json(r#"{"messageType":"all"}"#), &em));
    assert!(!matches_filters(&m, &json(r#"{"messageType":"assistant"}"#), &em));
    assert!(matches_filters(&m, &json(r#"{"projects":["alpha","beta"]}"#), &em));
    assert!(!matches_filters(&m, &json(r#"{"projects":["beta"]}"#), &em));
    assert!(matches_filters(&m, &json(r#"{"projects":[1,2]}"#), &em));
    assert!(!matches_filters(&m, &json(r#"{"hasToolCalls":true}"#), &em));
    assert!(matches_filters(&m, &json(r#"{"hasErrors":false,"hasFileChanges":false}"#), &em));
    assert!(matches_filters(
        &m,
        &json(r#"{"dateRange":["2026-01-01T00:00:00Z","2026-02-01T00:00:00Z"]}"#),
        &em
    ));
    assert!(!matches_filters(
        &m,
        &json(r#"{"dateRange":["2026-01-16T00:00:00Z","2026-02-01T00:00:00Z"]}"#),
        &em
    ));
    assert!(!matches_filters(&m, &json(r#"{"dateRange":["bad","2026-02-01T00:00:00Z"]}"#), &em));
    assert!(matches_filters(&m, &json(r#"{"dateRange":["bad"]}"#), &em));
    let mut no_project = message("user", "2026-01-15T00:00:00Z", Some(r#""hello""#));
    no_project.project_name = None;
    assert!(!matches_filters(&no_project, &json(r#"{"projects":["alpha"]}"#), &em));
}

#[test]
fn apply_search_filters_keeps_order_of_passing_messages() {
    let em = matcher("error");
    let msgs = vec![
        message("user", "2026-01-01T00:00:00Z", Some(r#""one""#)),
        message("assistant", "2026-01-02T00:00:00Z", Some(r#""two""#)),
        message("user", "2026-01-03T00:00:00Z", Some(r#""three""#)),
    ];
    let kept = apply_search_filters(msgs, &json(r#"{"messageType":"user"}"#), &em);
    let times: Vec<&str> = kept.iter().map(|m| m.timestamp.as_str()).collect();
    assert_eq!(times, vec!["2026-01-01T00:00:00Z", "2026-01-03T00:00:00Z"]);
}

#[test]
fn apply_search_filters_for_query_applies_scope() {
    let em = matcher("error");
    let m = matcher("needle");
    let msgs = vec![
        message("user", "2026-01-01T00:00:00Z", Some(r#"[{"type":"text","text":"needle"}]"#)),
        message("user", "2026-01-02T00:00:00Z", Some(r#"[{"type":"tool_result","content":"needle"}]"#)),
        message("user", "2026-01-03T00:00:00Z", None),
    ];
    let kept = apply_search_filters_for_query(msgs, &json(r#"{"searchScope":"text"}"#), &m, &em);
    assert_eq!(kept.len(), 1);
    assert_eq!(kept[0].timestamp, "2026-01-01T00:00:00Z");
    let all = apply_search_filters_for_query(
        vec![message("user", "2026-01-03T00:00:00Z", None)],
        &json("{}"),
        &m,
        &em,
    );
    assert_eq!(all.len(), 1);
}

#[test]
fn search_in_file_fills_missing_fields() {
    let entries = vec![
        None,
        Some(entry(None, "user", None, r#""a needle""#)),
        Some(entry(Some("kept"), "summary", Some("2026-01-01T00:00:00Z"), r#""needle""#)),
    ];
    let m = matcher("needle");
    let hits = search_in_file(&entries, &Some("proj".to_string()), &m, SearchScope::All);
    assert_eq!(hits.len(), 1);
    assert!(hits[0].uuid.ends_with("-line-2"));
    assert_eq!(hits[0].session_id, "session-1");
    assert_eq!(hits[0].role.as_deref(), Some("user"));
    assert_eq!(hits[0].project_name.as_deref(), Some("proj"));
    assert!(!hits[0].timestamp.is_empty());
}

#[test]
fn missing_uuid_and_time_get_a_random_uuid_and_utc_now() {
    let entries = vec![Some(entry(None, "user", None, r#""needle""#))];
    let m = matcher("needle");
    let hits = search_in_file(&entries, &None, &m, SearchScope::All);
    assert_eq!(hits.len(), 1);
    let uuid = hits[0].uuid.as_str();
    assert_eq!(uuid.len(), 36 + "-line-1".len());
    assert!(uuid.ends_with("-line-1"));
    let head: Vec<char> = uuid[..36].chars().collect();
    for (i, c) in head.iter().enumerate() {
        match i {
            8 | 13 | 18 | 23 => assert_eq!(*c, '-'),
            14 => assert_eq!(*c, '4'),
            19 => assert!("89ab".contains(*c)),
            _ => assert!("0123456789abcdef".contains(*c)),
        }
    }
    assert!(hits[0].timestamp.ends_with("+00:00"));
}

#[test]
fn select_latest_takes_newest() {
    let msgs = vec![
        message("user", "2026-01-01", None),
        message("user", "2026-03-01", None),
        message("user", "2026-02-01", None),
        message("user", "2026-03-01", None),
    ];
    let latest = select_latest(msgs, 3);
    let times: Vec<&str> = latest.iter().map(|m| m.timestamp.as_str()).collect();
    assert_eq!(times, vec!["2026-03-01", "2026-03-01", "2026-02-01"]);
}
