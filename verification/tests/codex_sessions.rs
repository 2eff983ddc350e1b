use history_viewer::codex::index::{
    load_sessions, load_sessions_with_filters, scan_projects_from_path,
    scan_projects_from_path_with_filters, CodexDisk, CodexSessionFilters, RolloutFile,
    SessionIndexCache,
};
use history_viewer::codex::rollout::load_messages;
use history_viewer::codex::search::{search_with_filters, SearchFile};
use history_viewer::codex::session_info::{extract_session_info, SessionInfo};
use history_viewer::codex::threads::load_thread_titles_from_index;
use history_viewer::json::JsonValue;
use history_viewer::search::{build_matcher, SearchScope};

fn bytes(lines: &[&str]) -> Vec<Vec<u8>> {
    lines.iter().map(|l| l.as_bytes().to_vec()).collect()
}

fn texts(lines: &[&str]) -> Vec<String> {
    lines.iter().map(|l| l.to_string()).collect()
}

fn rollout(path: &str, lines: &[&str]) -> RolloutFile {
    RolloutFile {
        path: path.to_string(),
        lines: Some(bytes(lines)),
        modified: "2026-01-01T00:00:00+00:00".to_string(),
    }
}

/// Reads the leading lines of a file among `files`, as the app reads them
/// from disk (nothing for a file that is not there).
fn head_reader(files: &[RolloutFile]) -> impl Fn(&String) -> Vec<String> {
    let known: Vec<(String, Vec<String>)> = files
        .iter()
        .map(|f| {
            let lines = f
                .lines
                .clone()
                .unwrap_or_default()
                .iter()
                .map(|l| String::from_utf8_lossy(l).to_string())
                .collect();
            (f.path.clone(), lines)
        })
        .collect();
    move |p: &String| {
        known
            .iter()
            .find(|(q, _)| q == p)
            .map(|(_, h)| h.clone())
            .unwrap_or_default()
    }
}

fn no_files(_: &String) -> Vec<String> {
    Vec::new()
}

fn disk(base: &str, files: Vec<RolloutFile>, titles: Option<&str>) -> CodexDisk {
    CodexDisk {
        base_path: base.to_string(),
        has_session_dirs: true,
        thread_index_modified: Some(7),
        titles_content: titles.map(|t| t.to_string()),
        files,
    }
}

fn search_file(path: &str, lines: &[&str]) -> SearchFile {
    SearchFile {
        path: path.to_string(),
        head_lines: texts(lines),
        lines: Some(bytes(lines)),
    }
}

fn first_text(content: &Option<JsonValue>) -> Option<&str> {
    content
        .as_ref()
        .and_then(|v| v.as_array())
        .and_then(|arr| arr[0].get("text"))
        .and_then(|v| v.as_str())
}

#[test]
fn load_messages_parses_codex_rollout_end_to_end() {
    let lines = [
        r#"{"timestamp":"2026-02-19T12:00:00Z","type":"session_meta","payload":{"id":"sess-1"}}"#,
        r#"{"timestamp":"2026-02-19T12:00:01Z","type":"turn_context","payload":{"model":"gpt-5-codex"}}"#,
        r#"{"timestamp":"2026-02-19T12:00:02Z","type":"response_item","payload":{"id":"item-1","type":"function_call","name":"exec_command","call_id":"call_1","arguments":"{\"cmd\":\"pwd\"}"}}"#,
        r#"{"timestamp":"2026-02-19T12:00:03Z","type":"response_item","payload":{"id":"item-2","type":"function_call_output","call_id":"call_1","output":"{\"output\":\"/tmp\",\"metadata\":{\"exit_code\":0}}"}}"#,
        r#"{"timestamp":"2026-02-19T12:00:04Z","type":"response_item","payload":{"id":"item-3","type":"message","role":"assistant","content":[{"type":"output_text","text":"done"}]}}"#,
        r#"{"timestamp":"2026-02-19T12:00:05Z","type":"event_msg","payload":{"type":"token_count","info":{"total_token_usage":{"input_tokens":100,"output_tokens":20}}}}"#,
        r#"{"timestamp":"2026-02-19T12:00:06Z","type":"event_msg","payload":{"type":"task_started","turn_id":"turn_1"}}"#,
        r#"{"timestamp":"2026-02-19T12:00:07Z","type":"event_msg","payload":{"type":"task_complete","turn_id":"turn_1"}}"#,
        r#"{"timestamp":"2026-02-19T12:00:08Z","type":"event_msg","payload":{"type":"context_compacted"}}"#,
        r#"{"timestamp":"2026-02-19T12:00:09Z","type":"compacted","payload":{"replacement_history":[{"type":"message"},{"type":"summary"}]}}"#,
    ];
    let messages = load_messages(&bytes(&lines));

    assert_eq!(messages.len(), 6);
    assert_eq!(messages[0].message_type, "assistant");
    assert_eq!(messages[1].message_type, "assistant");
    assert_eq!(messages[2].message_type, "progress");
    assert_eq!(messages[3].message_type, "progress");
    assert_eq!(messages[4].message_type, "system");
    assert_eq!(messages[5].message_type, "system");

    let first_blocks = messages[0]
        .content
        .as_ref()
        .and_then(|v| v.as_array())
        .expect("first message content should be an array");
    assert_eq!(first_blocks.len(), 2);
    assert_eq!(first_blocks[0].get("type").and_then(|v| v.as_str()), Some("tool_use"));
    assert_eq!(first_blocks[1].get("type").and_then(|v| v.as_str()), Some("tool_result"));
    assert_eq!(first_blocks[1].get("content").and_then(|v| v.as_str()), Some("/tmp"));
    assert_eq!(
        messages[0]
            .tool_use
            .as_ref()
            .and_then(|v| v.get("name"))
            .and_then(|v| v.as_str()),
        Some("Bash")
    );
    assert_eq!(messages[0].model.as_deref(), Some("gpt-5-codex"));
    assert_eq!(messages[1].model.as_deref(), Some("gpt-5-codex"));
    assert_eq!(messages[1].usage.as_ref().and_then(|u| u.input_tokens), Some(100));
    assert_eq!(messages[1].usage.as_ref().and_then(|u| u.output_tokens), Some(20));
    assert_eq!(
        messages[2].data.as_ref().and_then(|v| v.get("status")).and_then(|v| v.as_str()),
        Some("started")
    );
    assert_eq!(
        messages[3].data.as_ref().and_then(|v| v.get("status")).and_then(|v| v.as_str()),
        Some("completed")
    );
    assert_eq!(messages[4].subtype.as_deref(), Some("microcompact_boundary"));
    assert_eq!(messages[5].subtype.as_deref(), Some("compact_boundary"));
    assert_eq!(
        messages[5]
            .compact_metadata
            .as_ref()
            .and_then(|v| v.get("replacementHistoryCount"))
            .and_then(|v| v.as_u64()),
        Some(2)
    );
    assert!(messages.iter().all(|m| m.provider.as_deref() == Some("codex")));
    assert!(messages.iter().all(|m| m.session_id == "sess-1"));
}

#[test]
fn search_applies_scope_before_limit() {
    let lines = [
        r#"{"timestamp":"2026-03-01T10:00:00Z","type":"session_meta","payload":{"id":"sess-search-scope"}}"#,
        r#"{"timestamp":"2026-03-01T10:00:01Z","type":"response_item","payload":{"id":"tool-output","type":"function_call_output","call_id":"call-1","output":"needle from tool result"}}"#,
        r#"{"timestamp":"2026-03-01T10:00:02Z","type":"response_item","payload":{"id":"text-output","type":"message","role":"assistant","content":[{"type":"output_text","text":"needle from plain text"}]}}"#,
    ];
    let files = vec![search_file(
        "/home/u/codex-home/sessions/rollout-search-scope.jsonl",
        &lines,
    )];
    let matcher = build_matcher("needle").expect("matcher should build");
    let results = search_with_filters(Some(&files), &matcher, 1, SearchScope::Text, None)
        .expect("search should succeed");
    assert_eq!(results.len(), 1);
    assert_eq!(results[0].uuid, "text-output");
}

#[test]
fn load_messages_sets_project_name_from_cwd() {
    let lines = [
        r#"{"timestamp":"2026-03-01T10:00:00Z","type":"session_meta","payload":{"id":"sess-project-name","cwd":"/Users/Ruan/work/agent-history-viewer"}}"#,
        r#"{"timestamp":"2026-03-01T10:00:01Z","type":"response_item","payload":{"id":"message-1","type":"message","role":"assistant","content":[{"type":"output_text","text":"hello"}]}}"#,
    ];
    let messages = load_messages(&bytes(&lines));
    assert_eq!(messages.len(), 1);
    assert_eq!(messages[0].project_name.as_deref(), Some("agent-history-viewer"));
}

#[test]
fn load_messages_skips_duplicate_event_msg_for_user_and_agent() {
    let lines = [
        r#"{"timestamp":"2026-03-01T10:00:00Z","type":"session_meta","payload":{"id":"sess-dedup"}}"#,
        r#"{"timestamp":"2026-03-01T10:00:01Z","type":"response_item","payload":{"id":"item-u1","type":"message","role":"user","content":[{"type":"input_text","text":"hello"}]}}"#,
        r#"{"timestamp":"2026-03-01T10:00:01Z","type":"event_msg","payload":{"type":"user_message","message":"hello"}}"#,
        r#"{"timestamp":"2026-03-01T10:00:02Z","type":"response_item","payload":{"id":"item-a1","type":"message","role":"assistant","content":[{"type":"output_text","text":"hi there"}]}}"#,
        r#"{"timestamp":"2026-03-01T10:00:02Z","type":"event_msg","payload":{"type":"agent_message","message":"hi there"}}"#,
        r#"{"timestamp":"2026-03-01T10:00:03Z","type":"event_msg","payload":{"type":"token_count","info":{"total_token_usage":{"input_tokens":50,"output_tokens":10}}}}"#,
    ];
    let messages = load_messages(&bytes(&lines));
    assert_eq!(messages.len(), 2);
    assert_eq!(messages[0].message_type, "user");
    assert_eq!(messages[1].message_type, "assistant");
    assert_eq!(first_text(&messages[0].content), Some("hello"));
    assert_eq!(first_text(&messages[1].content), Some("hi there"));
    assert_eq!(messages[1].usage.as_ref().and_then(|u| u.input_tokens), Some(50));
}

#[test]
fn load_messages_dedup_multi_turn_conversation() {
    let lines = [
        r#"{"timestamp":"2026-03-01T10:00:00Z","type":"session_meta","payload":{"id":"sess-multi"}}"#,
        r#"{"timestamp":"2026-03-01T10:00:01Z","type":"response_item","payload":{"id":"u1","type":"message","role":"user","content":[{"type":"input_text","text":"first question"}]}}"#,
        r#"{"timestamp":"2026-03-01T10:00:01Z","type":"event_msg","payload":{"type":"user_message","message":"first question"}}"#,
        r#"{"timestamp":"2026-03-01T10:00:02Z","type":"response_item","payload":{"id":"a1","type":"message","role":"assistant","content":[{"type":"output_text","text":"first answer"}]}}"#,
        r#"{"timestamp":"2026-03-01T10:00:02Z","type":"event_msg","payload":{"type":"agent_message","message":"first answer"}}"#,
        r#"{"timestamp":"2026-03-01T10:00:03Z","type":"response_item","payload":{"id":"u2","type":"message","role":"user","content":[{"type":"input_text","text":"follow-up"}]}}"#,
        r#"{"timestamp":"2026-03-01T10:00:03Z","type":"event_msg","payload":{"type":"user_message","message":"follow-up"}}"#,
        r#"{"timestamp":"2026-03-01T10:00:04Z","type":"response_item","payload":{"id":"a2","type":"message","role":"assistant","content":[{"type":"output_text","text":"second answer"}]}}"#,
        r#"{"timestamp":"2026-03-01T10:00:04Z","type":"event_msg","payload":{"type":"agent_message","message":"second answer"}}"#,
        r#"{"timestamp":"2026-03-01T10:00:05Z","type":"response_item","payload":{"id":"u3","type":"message","role":"user","content":[{"type":"input_text","text":"one more thing"}]}}"#,
        r#"{"timestamp":"2026-03-01T10:00:05Z","type":"event_msg","payload":{"type":"user_message","message":"one more thing"}}"#,
    ];
    let messages = load_messages(&bytes(&lines));
    assert_eq!(messages.len(), 5);
    let expected = [
        ("user", "first question"),
        ("assistant", "first answer"),
        ("user", "follow-up"),
        ("assistant", "second answer"),
        ("user", "one more thing"),
    ];
    for (i, (msg_type, text)) in expected.iter().enumerate() {
        assert_eq!(messages[i].message_type, *msg_type, "message {i} type");
        assert_eq!(first_text(&messages[i].content), Some(*text), "message {i} content");
    }
}

#[test]
fn load_messages_same_without_echo_event_lines() {
    let with_echo = [
        r#"{"timestamp":"2026-03-01T10:00:00Z","type":"session_meta","payload":{"id":"sess-multi","cwd":"/work/demo"}}"#,
        r#"{"timestamp":"2026-03-01T10:00:01Z","type":"response_item","payload":{"id":"u1","type":"message","role":"user","content":[{"type":"input_text","text":"first question"}]}}"#,
        r#"{"timestamp":"2026-03-01T10:00:01Z","type":"event_msg","payload":{"type":"user_message","message":"first question"}}"#,
        r#"{"timestamp":"2026-03-01T10:00:02Z","type":"response_item","payload":{"id":"a1","type":"message","role":"assistant","content":[{"type":"output_text","text":"first answer"}]}}"#,
        r#"{"timestamp":"2026-03-01T10:00:02Z","type":"event_msg","payload":{"type":"agent_message","message":"first answer"}}"#,
    ];
    let without_echo = [with_echo[0], with_echo[1], with_echo[3]];
    let a = load_messages(&bytes(&with_echo));
    let b = load_messages(&bytes(&without_echo));
    assert_eq!(a.len(), 2);
    assert_eq!(a.len(), b.len());
    for i in 0..a.len() {
        assert_eq!(a[i].uuid, b[i].uuid);
        assert_eq!(a[i].timestamp, b[i].timestamp);
        assert_eq!(a[i].message_type, b[i].message_type);
        assert_eq!(a[i].project_name, b[i].project_name);
        assert_eq!(first_text(&a[i].content), first_text(&b[i].content));
    }
    assert_eq!(a[0].project_name.as_deref(), Some("demo"));
}

const BASE: &str = "/home/jack/codex-home";

#[test]
fn load_sessions_includes_archived_sessions() {
    let mut cache = SessionIndexCache::new();
    let active = [
        r#"{"type":"session_meta","payload":{"id":"active-session","cwd":"/Users/jack/client/agent-history-viewer"}}"#,
        r#"{"type":"response_item","payload":{"type":"message","role":"user","created_at":"2026-02-21T10:00:00Z","content":[{"type":"input_text","text":"active"}]}}"#,
    ];
    let archived = [
        r#"{"type":"session_meta","payload":{"id":"archived-session","cwd":"/Users/jack/client/agent-history-viewer"}}"#,
        r#"{"type":"response_item","payload":{"type":"message","role":"user","created_at":"2026-02-21T11:00:00Z","content":[{"type":"input_text","text":"archived"}]}}"#,
    ];
    let d = disk(
        BASE,
        vec![
            rollout("/home/jack/codex-home/sessions/2026/02/21/rollout-active.jsonl", &active),
            rollout("/home/jack/codex-home/archived_sessions/rollout-archived.jsonl", &archived),
        ],
        None,
    );
    let heads = head_reader(&d.files);
    let sessions = load_sessions(
        &mut cache,
        Some(BASE),
        Some(7),
        "codex:///Users/jack/client/agent-history-viewer",
        false,
        move || d,
        &heads,
    )
    .expect("sessions should be loaded");
    assert_eq!(sessions.len(), 2);
    assert!(sessions.iter().any(|s| s.file_path.contains("/sessions/")));
    assert!(sessions.iter().any(|s| s.file_path.contains("/archived_sessions/")));
    // newest first
    assert_eq!(sessions[0].actual_session_id, "archived-session");
}

#[test]
fn codex_session_filters_hide_permission_guardian_sessions() {
    let mut cache = SessionIndexCache::new();
    let normal = [
        r#"{"type":"session_meta","payload":{"id":"normal-session","cwd":"/Users/jack/client/filter-project"}}"#,
        r#"{"type":"response_item","payload":{"type":"message","role":"user","created_at":"2026-06-13T10:00:00Z","content":[{"type":"input_text","text":"normal prompt"}]}}"#,
    ];
    let permissions = [
        r#"{"type":"session_meta","payload":{"id":"permissions-session","cwd":"/Users/jack/client/filter-project","source":{"subagent":{"other":"guardian"}},"base_instructions":{"text":"You are judging one planned coding-agent action."}}}"#,
        r#"{"type":"response_item","payload":{"type":"message","role":"user","created_at":"2026-06-13T11:00:00Z","content":[{"type":"input_text","text":"permissions instructions"}]}}"#,
    ];
    let d = disk(
        BASE,
        vec![
            rollout("/home/jack/codex-home/sessions/2026/06/13/rollout-normal.jsonl", &normal),
            rollout("/home/jack/codex-home/sessions/2026/06/13/rollout-permissions.jsonl", &permissions),
        ],
        None,
    );
    let filters = CodexSessionFilters {
        enabled: true,
        include_permissions: false,
        include_git_commit_subagents: false,
    };
    let heads = head_reader(&d.files);
    let projects = scan_projects_from_path_with_filters(&mut cache, &d, Some(&filters), &heads)
        .expect("projects should be scanned");
    assert_eq!(projects.len(), 1);
    assert_eq!(projects[0].session_count, 1);

    let sessions = load_sessions_with_filters(
        &mut cache,
        Some(BASE),
        Some(7),
        "codex:///Users/jack/client/filter-project",
        false,
        Some(&filters),
        || -> CodexDisk { unreachable!("the index is cached") },
        &heads,
    )
    .expect("sessions should be loaded");
    assert_eq!(sessions.len(), 1);
    assert_eq!(sessions[0].actual_session_id, "normal-session");

    let visible_filters = CodexSessionFilters {
        enabled: true,
        include_permissions: true,
        include_git_commit_subagents: false,
    };
    let visible_sessions = load_sessions_with_filters(
        &mut cache,
        Some(BASE),
        Some(7),
        "codex:///Users/jack/client/filter-project",
        false,
        Some(&visible_filters),
        || -> CodexDisk { unreachable!("the index is cached") },
        &heads,
    )
    .expect("sessions should be loaded");
    assert_eq!(visible_sessions.len(), 2);
}

#[test]
fn codex_session_filters_hide_ajk_git_commit_subagent_sessions() {
    let mut cache = SessionIndexCache::new();
    let normal = [
        r#"{"type":"session_meta","payload":{"id":"normal-session","cwd":"/Users/jack/client/git-commit-project"}}"#,
        r#"{"type":"response_item","payload":{"type":"message","role":"user","created_at":"2026-06-14T10:00:00Z","content":[{"type":"input_text","text":"normal prompt"}]}}"#,
    ];
    let worker = [
        r#"{"type":"session_meta","payload":{"id":"git-commit-session","cwd":"/Users/jack/client/git-commit-project","source":{"subagent":{"thread_spawn":{"parent_thread_id":"parent-session","depth":1,"agent_nickname":"Sagan","agent_role":"worker"}}},"thread_source":"subagent","agent_nickname":"Sagan","agent_role":"worker"}}"#,
        r#"{"type":"response_item","payload":{"type":"message","role":"user","created_at":"2026-06-14T11:00:00Z","content":[{"type":"input_text","text":"你负责在仓库 /tmp/repo 执行一次 git commit。请严格按 `/Users/Ruan/.cc-switch/skills/ajk-git-commit/SKILL.md` 的规则。"}]}}"#,
    ];
    let normal_path = "/home/jack/codex-home/sessions/2026/06/14/rollout-normal.jsonl";
    let worker_path = "/home/jack/codex-home/sessions/2026/06/14/rollout-git-commit-worker.jsonl";
    let make_disk = || {
        disk(
            BASE,
            vec![rollout(normal_path, &normal), rollout(worker_path, &worker)],
            None,
        )
    };
    let search_files = vec![search_file(normal_path, &normal), search_file(worker_path, &worker)];
    let heads = head_reader(&make_disk().files);
    let matcher = build_matcher("ajk-git-commit").expect("matcher should build");
    let project = "codex:///Users/jack/client/git-commit-project";

    let default_projects = scan_projects_from_path_with_filters(&mut cache, &make_disk(), None, &heads)
        .expect("projects should be scanned");
    assert_eq!(default_projects.len(), 1);
    assert_eq!(default_projects[0].session_count, 1);

    let default_sessions = load_sessions_with_filters(
        &mut cache, Some(BASE), Some(7), project, false, None, make_disk, &heads,
    )
    .expect("sessions should be loaded");
    assert_eq!(default_sessions.len(), 1);
    assert_eq!(default_sessions[0].actual_session_id, "normal-session");

    let default_search_results =
        search_with_filters(Some(&search_files), &matcher, 10, SearchScope::All, None)
            .expect("search should run");
    assert!(default_search_results.is_empty());

    let filters = CodexSessionFilters {
        enabled: true,
        include_permissions: true,
        include_git_commit_subagents: false,
    };
    let projects = scan_projects_from_path_with_filters(&mut cache, &make_disk(), Some(&filters), &heads)
        .expect("projects should be scanned");
    assert_eq!(projects.len(), 1);
    assert_eq!(projects[0].session_count, 1);

    let sessions = load_sessions_with_filters(
        &mut cache, Some(BASE), Some(7), project, false, Some(&filters), make_disk, &heads,
    )
    .expect("sessions should be loaded");
    assert_eq!(sessions.len(), 1);
    assert_eq!(sessions[0].actual_session_id, "normal-session");

    let hidden_search_results =
        search_with_filters(Some(&search_files), &matcher, 10, SearchScope::All, Some(&filters))
            .expect("search should run");
    assert!(hidden_search_results.is_empty());

    let visible_filters = CodexSessionFilters {
        enabled: true,
        include_permissions: true,
        include_git_commit_subagents: true,
    };
    let visible_sessions = load_sessions_with_filters(
        &mut cache, Some(BASE), Some(7), project, false, Some(&visible_filters), make_disk, &heads,
    )
    .expect("sessions should be loaded");
    assert_eq!(visible_sessions.len(), 2);

    let visible_search_results = search_with_filters(
        Some(&search_files),
        &matcher,
        10,
        SearchScope::All,
        Some(&visible_filters),
    )
    .expect("search should run");
    assert_eq!(visible_search_results.len(), 1);
}

#[test]
fn scan_projects_populates_session_index_for_fast_loads() {
    let mut cache = SessionIndexCache::new();
    let lines = [
        r#"{"type":"session_meta","payload":{"id":"fast-session","cwd":"/Users/jack/client/fast-project"}}"#,
        r#"{"type":"response_item","payload":{"type":"message","role":"user","created_at":"2026-02-21T10:00:00Z","content":[{"type":"input_text","text":"fallback title"}]}}"#,
    ];
    let index = r#"{"id":"fast-session","thread_name":"Renamed fast session","updated_at":"2026-02-21T10:01:00Z"}"#.to_string() + "\n";
    let d = disk(
        BASE,
        vec![rollout("/home/jack/codex-home/sessions/2026/02/21/rollout-fast-load.jsonl", &lines)],
        Some(&index),
    );
    let heads = head_reader(&d.files);
    let projects = scan_projects_from_path(&mut cache, &d, &heads).expect("projects should be scanned");
    assert_eq!(projects.len(), 1);
    assert_eq!(projects[0].path, "codex:///Users/jack/client/fast-project");

    // the rollout file is gone: the sessions come from the kept index
    let sessions = load_sessions(
        &mut cache,
        Some(BASE),
        Some(7),
        "codex:///Users/jack/client/fast-project",
        false,
        || -> CodexDisk { unreachable!("the index is cached") },
        &no_files,
    )
    .expect("sessions should be loaded from cache");
    assert_eq!(sessions.len(), 1);
    assert_eq!(sessions[0].summary.as_deref(), Some("Renamed fast session"));
    assert!(sessions[0].is_renamed);
}

#[test]
fn load_messages_accepts_archived_session_path() {
    let lines = [
        r#"{"type":"session_meta","payload":{"id":"archived-session","cwd":"/tmp/project"}}"#,
        r#"{"type":"response_item","payload":{"id":"item-1","type":"message","role":"assistant","created_at":"2026-02-21T10:00:00Z","content":[{"type":"output_text","text":"ok"}]}}"#,
    ];
    let messages = load_messages(&bytes(&lines));
    assert_eq!(messages.len(), 1);
    assert_eq!(messages[0].session_id, "archived-session");
}

fn info_of(user_messages: &[(&str, &str)]) -> SessionInfo {
    let mut lines: Vec<String> = vec![
        r#"{"timestamp":"2026-05-13T08:00:00Z","type":"session_meta","payload":{"id":"sess-env-ctx","cwd":"/tmp/proj"}}"#.to_string(),
    ];
    for (ts, text) in user_messages {
        let line = format!(
            r#"{{"timestamp":"{ts}","type":"response_item","payload":{{"type":"message","role":"user","content":[{{"type":"input_text","text":{}}}]}}}}"#,
            JsonValue::Str(text.to_string()).to_json_text()
        );
        lines.push(line);
    }
    let raw: Vec<Vec<u8>> = lines.iter().map(|l| l.as_bytes().to_vec()).collect();
    extract_session_info(&raw, "/tmp/rollout-2026-05-13.jsonl", "2026-05-13T09:00:00+00:00")
}

const ENV_CONTEXT_BLOCK: &str = "<environment_context>\n  <cwd>/tmp/proj</cwd>\n  <shell>powershell</shell>\n  <current_date>2026-05-13</current_date>\n  <timezone>Asia/Shanghai</timezone>\n</environment_context>";
const AGENTS_INSTRUCTIONS_BLOCK: &str = r"# AGENTS.md instructions for /Users/Ruan/Downloads/01_src/github_refs/01-AI/04-AI应用/03-桌面应用/agent-history-viewer

<INSTRUCTIONS>
# Codex/Agents 项目管理指南

- 长期实现计划必须遵循 `long-term-plan` skill；若本文件与该 skill 冲突，以 skill 为准。
</INSTRUCTIONS>";

#[test]
fn extract_session_info_skips_environment_context_wrapper() {
    let info = info_of(&[
        ("2026-05-13T08:00:01Z", ENV_CONTEXT_BLOCK),
        ("2026-05-13T08:00:02Z", "Please review my PR for the Antigravity provider."),
    ]);
    assert_eq!(
        info.summary.as_deref(),
        Some("Please review my PR for the Antigravity provider.")
    );
    assert_eq!(info.message_count, 2);
}

#[test]
fn extract_session_info_uses_first_real_user_prompt() {
    let info = info_of(&[
        ("2026-05-13T08:00:01Z", "fix the WSL crash"),
        ("2026-05-13T08:00:02Z", "second message"),
    ]);
    assert_eq!(info.summary.as_deref(), Some("fix the WSL crash"));
    assert_eq!(info.message_count, 2);
}

#[test]
fn load_thread_titles_from_index_uses_latest_thread_name() {
    let content = [
        r#"{"id":"sess-1","thread_name":"old title","updated_at":"2026-06-13T14:07:37Z"}"#,
        r#"{"id":"sess-1","thread_name":"new title","updated_at":"2026-06-14T02:02:34Z"}"#,
        r#"{"id":"sess-2","thread_name":"other title","updated_at":"2026-06-13T14:07:37Z"}"#,
    ]
    .join("\n");
    let titles = load_thread_titles_from_index(&content);
    assert_eq!(titles.get("sess-1").expect("sess-1 has a title").name, "new title");
    assert_eq!(titles.get("sess-2").expect("sess-2 has a title").name, "other title");
}

#[test]
fn extract_session_info_skips_agents_instructions_block() {
    let info = info_of(&[
        ("2026-05-13T08:00:01Z", AGENTS_INSTRUCTIONS_BLOCK),
        ("2026-05-13T08:00:02Z", "Optimize the Codex conversation title."),
    ]);
    assert_eq!(info.summary.as_deref(), Some("Optimize the Codex conversation title."));
    assert_eq!(info.message_count, 2);
}

#[test]
fn extract_session_info_agents_instructions_only_yields_no_summary() {
    let info = info_of(&[("2026-05-13T08:00:01Z", AGENTS_INSTRUCTIONS_BLOCK)]);
    assert!(
        info.summary.is_none(),
        "AGENTS-only sessions should not produce a misleading summary; got {:?}",
        info.summary
    );
    assert_eq!(info.message_count, 1);
}

#[test]
fn extract_session_info_keeps_real_prompt_that_mentions_agents_heading() {
    let info = info_of(&[
        (
            "2026-05-13T08:00:01Z",
            "Please summarize # AGENTS.md instructions for this repo for onboarding",
        ),
        ("2026-05-13T08:00:02Z", "second message"),
    ]);
    assert_eq!(
        info.summary.as_deref(),
        Some("Please summarize # AGENTS.md instructions for this repo for onboarding")
    );
    assert_eq!(info.message_count, 2);
}

#[test]
fn extract_session_info_extracts_vscode_ide_request() {
    let info = info_of(&[(
        "2026-05-13T08:00:01Z",
        "# Context from my IDE setup:\n\n## Active file: src/main.ts\n\n## My request for Codex:\nFix the session title preview",
    )]);
    assert_eq!(info.summary.as_deref(), Some("Fix the session title preview"));
    assert_eq!(info.message_count, 1);
}

#[test]
fn extract_session_info_extracts_inline_vscode_ide_request() {
    let info = info_of(&[(
        "2026-05-13T08:00:01Z",
        "# Context from my IDE setup:\n\n## My request for Codex: Fix the TOC preview",
    )]);
    assert_eq!(info.summary.as_deref(), Some("Fix the TOC preview"));
    assert_eq!(info.message_count, 1);
}

#[test]
fn extract_session_info_uses_last_vscode_request_heading() {
    let info = info_of(&[(
        "2026-05-13T08:00:01Z",
        "# Context from my IDE setup:\n\n## Active selection:\n## My request for Codex:\nselected document content, not the prompt\n\n## My request for Codex:\nUse the real request heading",
    )]);
    assert_eq!(info.summary.as_deref(), Some("Use the real request heading"));
    assert_eq!(info.message_count, 1);
}

#[test]
fn extract_session_info_skips_vscode_context_without_request() {
    let info = info_of(&[
        ("2026-05-13T08:00:01Z", "# Context from my IDE setup:\n\n## Active file: src/main.ts"),
        ("2026-05-13T08:00:02Z", "Fix the login bug"),
    ]);
    assert_eq!(info.summary.as_deref(), Some("Fix the login bug"));
    assert_eq!(info.message_count, 2);
}

#[test]
fn extract_session_info_env_context_only_yields_no_summary() {
    let info = info_of(&[("2026-05-13T08:00:01Z", ENV_CONTEXT_BLOCK)]);
    assert!(
        info.summary.is_none(),
        "env-context-only sessions should not produce a misleading summary; got {:?}",
        info.summary
    );
    assert_eq!(info.message_count, 1);
}
