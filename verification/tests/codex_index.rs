use history_viewer::codex::classify::{is_ajk_git_commit_subagent_session, is_permissions_approval_session};
use history_viewer::codex::index::{
    build_session_index, codex_session_allowed, detect, filter_codex_projects, filter_codex_sessions, get_base_path,
    get_cached_session_index, invalidate_session_index_cache, join_path, path_starts_with,
    projects_from_sessions_by_cwd, require_absolute_path, scan_projects, scan_projects_with_filters,
    session_info_to_claude_session, should_apply_codex_filters, should_hide_git_commit_subagent_sessions,
    should_hide_permissions_sessions, store_session_index, target_cwd, validate_session_path,
    CodexDisk, CodexSessionFilters, RolloutFile, SessionFlags, SessionIndexCache,
};
use history_viewer::codex::paths::{is_rollout_jsonl, project_name_from_cwd};
use history_viewer::codex::session_info::SessionInfo;
use history_viewer::codex::threads::load_thread_titles_from_index;
use history_viewer::codex::titles::truncate_summary_text;
use history_viewer::models::ClaudeSession;
use history_viewer::sort::{first_k_positions, SortKey};

fn session(path: &str, modified: &str, count: usize) -> ClaudeSession {
    ClaudeSession {
        session_id: path.to_string(),
        actual_session_id: path.to_string(),
        file_path: path.to_string(),
        project_name: "p".to_string(),
        message_count: count,
        first_message_time: String::new(),
        last_message_time: modified.to_string(),
        last_modified: modified.to_string(),
        has_tool_use: false,
        has_errors: false,
        summary: None,
        is_renamed: false,
        provider: Some("codex".to_string()),
        storage_type: None,
        entrypoint: None,
    }
}

fn rollout(path: &str, lines: &[&str]) -> RolloutFile {
    RolloutFile {
        path: path.to_string(),
        lines: Some(lines.iter().map(|l| l.as_bytes().to_vec()).collect()),
        modified: "2026-01-01T00:00:00+00:00".to_string(),
    }
}

fn info(id: &str, summary: Option<&str>) -> SessionInfo {
    SessionInfo {
        session_id: id.to_string(),
        cwd: Some("/w/proj".to_string()),
        model: None,
        message_count: 3,
        first_message_time: "t1".to_string(),
        last_message_time: "t2".to_string(),
        last_modified: "t2".to_string(),
        file_path: "/h/sessions/rollout-a.jsonl".to_string(),
        has_tool_use: true,
        summary: summary.map(|s| s.to_string()),
    }
}

#[test]
fn filter_switches_follow_the_filters() {
    let off = CodexSessionFilters { enabled: false, include_permissions: false, include_git_commit_subagents: false };
    let on = CodexSessionFilters { enabled: true, include_permissions: true, include_git_commit_subagents: false };
    assert!(should_apply_codex_filters(None));
    assert!(!should_apply_codex_filters(Some(&off)));
    assert!(should_hide_permissions_sessions(None));
    assert!(!should_hide_permissions_sessions(Some(&on)));
    assert!(should_hide_git_commit_subagent_sessions(Some(&on)));
    assert!(!should_hide_git_commit_subagent_sessions(Some(&off)));
    assert_eq!(CodexSessionFilters::default(), off);
    let perm = SessionFlags { is_permissions: true, is_git_commit_worker: false };
    assert!(!codex_session_allowed(perm, None));
    assert!(codex_session_allowed(perm, Some(&on)));
}

const GUARDIAN_META: &str = r#"{"type":"session_meta","payload":{"id":"g","source":{"subagent":{"other":"guardian"}}}}"#;

/// `/a` is a guardian review; every other file a plain session.
fn guardian_at_a(p: &String) -> Vec<String> {
    if p == "/a" {
        vec![GUARDIAN_META.to_string()]
    } else {
        vec![r#"{"type":"session_meta","payload":{"id":"n"}}"#.to_string()]
    }
}

#[test]
fn disabled_filters_keep_every_session() {
    let off = CodexSessionFilters { enabled: false, include_permissions: false, include_git_commit_subagents: false };
    let sessions = vec![session("/a", "1", 1), session("/b", "2", 1)];
    assert_eq!(filter_codex_sessions(&sessions, Some(&off), &guardian_at_a).len(), 2);
    let kept = filter_codex_sessions(&sessions, None, &guardian_at_a);
    assert_eq!(kept.len(), 1);
    assert_eq!(kept[0].file_path, "/b");
}

#[test]
fn filters_read_the_files_when_they_filter() {
    // The same index filtered twice: the file at /h/sessions/rollout-1.jsonl
    // became a guardian review in between, and the second filtering sees it.
    let disk = CodexDisk {
        base_path: "/h".to_string(),
        has_session_dirs: true,
        thread_index_modified: None,
        titles_content: None,
        files: vec![
            rollout("/h/sessions/rollout-1.jsonl", &[r#"{"type":"session_meta","payload":{"id":"1","cwd":"/w/a"}}"#]),
            rollout("/h/sessions/rollout-2.jsonl", &[r#"{"type":"session_meta","payload":{"id":"2","cwd":"/w/a"}}"#]),
        ],
    };
    let ix = build_session_index(&disk).expect("index should build");
    let plain = |_: &String| vec![r#"{"type":"session_meta","payload":{"id":"n"}}"#.to_string()];
    let changed = |p: &String| {
        if p == "/h/sessions/rollout-1.jsonl" {
            vec![GUARDIAN_META.to_string()]
        } else {
            vec![r#"{"type":"session_meta","payload":{"id":"n"}}"#.to_string()]
        }
    };
    assert_eq!(ix.sessions_for("/w/a", None, &plain).len(), 2);
    let after = ix.sessions_for("/w/a", None, &changed);
    assert_eq!(after.len(), 1);
    assert_eq!(after[0].actual_session_id, "2");
    let projects = filter_codex_projects(&ix, None, &changed);
    assert_eq!(projects.len(), 1);
    assert_eq!(projects[0].session_count, 1);
    let all = CodexSessionFilters { enabled: true, include_permissions: true, include_git_commit_subagents: true };
    assert_eq!(ix.sessions_for("/w/a", Some(&all), &changed).len(), 2);
}

#[test]
fn projects_are_built_per_directory_newest_first() {
    let groups = vec![
        ("/w/old".to_string(), vec![session("/1", "2026-01-01", 2), session("/2", "2026-01-05", 3)]),
        ("/w/empty".to_string(), vec![]),
        ("/w/new".to_string(), vec![session("/3", "2026-02-01", 1)]),
    ];
    let projects = projects_from_sessions_by_cwd(&groups);
    assert_eq!(projects.len(), 2);
    assert_eq!(projects[0].name, "new");
    assert_eq!(projects[0].path, "codex:///w/new");
    assert_eq!(projects[1].actual_path, "/w/old");
    assert_eq!(projects[1].session_count, 2);
    assert_eq!(projects[1].message_count, 5);
    assert_eq!(projects[1].last_modified, "2026-01-05");
    assert_eq!(projects[1].provider.as_deref(), Some("codex"));
}

#[test]
fn project_message_count_stops_at_the_maximum() {
    let groups = vec![("/w".to_string(), vec![session("/1", "1", usize::MAX), session("/2", "2", 5)])];
    let projects = projects_from_sessions_by_cwd(&groups);
    assert_eq!(projects[0].message_count, usize::MAX);
}

#[test]
fn renamed_threads_show_their_name() {
    let titles = load_thread_titles_from_index(
        r#"{"id":"s1","thread_name":"  Named  ","updated_at":"2026-01-01"}"#,
    );
    let renamed = session_info_to_claude_session(info("s1", Some("fallback")), "/w/proj", &titles);
    assert_eq!(renamed.summary.as_deref(), Some("Named"));
    assert!(renamed.is_renamed);
    assert_eq!(renamed.session_id, "/h/sessions/rollout-a.jsonl");
    assert_eq!(renamed.actual_session_id, "s1");
    assert_eq!(renamed.project_name, "proj");
    assert!(!renamed.has_errors);
    let plain = session_info_to_claude_session(info("s2", Some("fallback")), "/w/proj", &titles);
    assert_eq!(plain.summary.as_deref(), Some("fallback"));
    assert!(!plain.is_renamed);
}

#[test]
fn thread_titles_skip_bad_lines_and_keep_ties() {
    let content = "\n  \nnot json\r\n{\"id\":\"a\",\"thread_name\":\"   \"}\n{\"id\":\"a\",\"thread_name\":\"first\"}\r\n{\"id\":\"a\",\"thread_name\":\"same time\"}\n{\"thread_name\":\"no id\"}\n";
    let titles = load_thread_titles_from_index(content);
    assert_eq!(titles.get("a").map(|t| t.name.as_str()), Some("first"));
    assert!(titles.get("b").is_none());
    assert_eq!(titles.entries.len(), 1);
}

#[test]
fn build_refuses_relative_base_and_empties_without_dirs() {
    let relative = CodexDisk {
        base_path: "codex-home".to_string(),
        has_session_dirs: true,
        thread_index_modified: None,
        titles_content: None,
        files: vec![],
    };
    assert_eq!(
        build_session_index(&relative).err(),
        Some("Codex base path must be an absolute path: codex-home".to_string())
    );
    assert_eq!(
        require_absolute_path("/abs", "X"),
        Ok(())
    );
    let no_dirs = CodexDisk {
        base_path: "/h".to_string(),
        has_session_dirs: false,
        thread_index_modified: Some(1),
        titles_content: None,
        files: vec![rollout("/h/sessions/rollout-x.jsonl", &[r#"{"type":"session_meta","payload":{"id":"x"}}"#])],
    };
    let ix = build_session_index(&no_dirs).expect("index should build");
    assert!(ix.projects.is_empty());
    assert!(ix.sessions_by_cwd.is_empty());
    assert_eq!(ix.thread_index_modified, Some(1));
}

#[test]
fn build_groups_rollout_files_by_directory() {
    let disk = CodexDisk {
        base_path: "/h".to_string(),
        has_session_dirs: true,
        thread_index_modified: None,
        titles_content: None,
        files: vec![
            rollout("/h/sessions/rollout-1.jsonl", &[r#"{"type":"session_meta","payload":{"id":"1","cwd":"/w/a"}}"#]),
            rollout("/h/sessions/notes.txt", &[r#"{"type":"session_meta","payload":{"id":"2","cwd":"/w/a"}}"#]),
            rollout("/h/sessions/rollout-3.jsonl", &[r#"{"type":"session_meta","payload":{"id":"3"}}"#]),
            RolloutFile { lines: None, ..rollout("/h/sessions/rollout-4.jsonl", &[]) },
            rollout("/h/sessions/rollout-5.jsonl", &[r#"{"type":"session_meta","payload":{"id":"5","cwd":"/w/a"}}"#, r#"{"type":"response_item","payload":{"type":"message","created_at":"2027-01-01"}}"#]),
        ],
    };
    let ix = build_session_index(&disk).expect("index should build");
    assert_eq!(ix.sessions_by_cwd.len(), 2);
    assert_eq!(ix.sessions_by_cwd[0].cwd, "/w/a");
    assert_eq!(ix.sessions_by_cwd[0].sessions.len(), 2);
    assert_eq!(ix.sessions_by_cwd[0].sessions[0].actual_session_id, "5");
    assert_eq!(ix.sessions_by_cwd[1].cwd, "unknown");
    assert_eq!(ix.projects.len(), 2);
    assert_eq!(ix.projects[0].actual_path, "/w/a");
}

#[test]
fn cache_gives_back_what_was_stored() {
    let mut cache = SessionIndexCache::new();
    let disk = CodexDisk {
        base_path: "/h".to_string(),
        has_session_dirs: false,
        thread_index_modified: Some(3),
        titles_content: None,
        files: vec![],
    };
    let ix = build_session_index(&disk).expect("index should build");
    store_session_index(&mut cache, ix);
    assert!(get_cached_session_index(&cache, "/h", Some(3)).is_some());
    assert!(get_cached_session_index(&cache, "/h", Some(4)).is_none());
    assert!(get_cached_session_index(&cache, "/other", Some(3)).is_none());
    invalidate_session_index_cache(&mut cache);
    assert!(get_cached_session_index(&cache, "/h", Some(3)).is_none());
}

#[test]
fn scan_without_codex_home_is_an_error() {
    let mut cache = SessionIndexCache::new();
    assert_eq!(
        scan_projects(&mut cache, None, &guardian_at_a).err(),
        Some("Codex base path not found".to_string())
    );
    assert!(scan_projects_with_filters(&mut cache, None, None, &guardian_at_a).is_err());
}

#[test]
fn project_paths_lead_back_to_the_directory() {
    assert_eq!(target_cwd("codex:///w/proj"), "/w/proj");
    assert_eq!(target_cwd("/w/proj"), "/w/proj");
    assert_eq!(target_cwd("codex:/"), "codex:/");
}

#[test]
fn detect_and_base_path_choices() {
    assert!(detect(None, true, true).is_none());
    let info = detect(Some("/h/.codex"), false, true).expect("provider");
    assert_eq!(info.id, "codex");
    assert_eq!(info.display_name, "Codex CLI");
    assert!(info.is_available);
    assert!(!detect(Some("/h/.codex"), false, false).expect("provider").is_available);
    assert_eq!(get_base_path(Some("/env"), true, Some("/home/.codex"), true).as_deref(), Some("/env"));
    assert_eq!(get_base_path(Some("/env"), false, Some("/home/.codex"), true).as_deref(), Some("/home/.codex"));
    assert_eq!(get_base_path(None, false, Some("/home/.codex"), false), None);
    assert_eq!(join_path("/h", "sessions"), "/h/sessions");
    assert_eq!(join_path("/h/", "sessions"), "/h/sessions");
}

#[test]
fn session_paths_must_lie_in_session_dirs() {
    let dirs = vec!["/h/sessions".to_string(), "/h/archived_sessions".to_string()];
    assert_eq!(
        validate_session_path("/h/archived_sessions/rollout-a.jsonl", &dirs, "raw"),
        Ok("/h/archived_sessions/rollout-a.jsonl".to_string())
    );
    assert_eq!(
        validate_session_path("/h/sessions-old/rollout-a.jsonl", &dirs, "raw"),
        Err("Session path is outside Codex session directories: raw".to_string())
    );
    assert_eq!(
        validate_session_path("/h/sessions/a.jsonl", &vec![], "raw"),
        Err("No Codex session directories found".to_string())
    );
    assert!(path_starts_with("/a/b/c", "/a/b"));
    assert!(!path_starts_with("/a/bc", "/a/b"));
    assert!(!path_starts_with("a/b", "/a"));
}

#[test]
fn rollout_names_and_project_names() {
    assert!(is_rollout_jsonl("/x/rollout-2026.jsonl"));
    assert!(!is_rollout_jsonl("/x/rollout-2026.json"));
    assert!(!is_rollout_jsonl("/x/session-2026.jsonl"));
    assert_eq!(project_name_from_cwd("/Users/me/work/app/"), "app");
    assert_eq!(project_name_from_cwd("/"), "/");
}

#[test]
fn classification_reads_the_leading_lines() {
    let guardian = vec![r#"{"type":"session_meta","payload":{"source":{"subagent":{"other":"guardian"}}}}"#.to_string()];
    assert!(is_permissions_approval_session(&guardian));
    let no_payload = vec![r#"{"type":"session_meta"}"#.to_string(), guardian[0].clone()];
    assert!(!is_permissions_approval_session(&no_payload));
    let mut late = vec!["{}".to_string(); 20];
    late.push(guardian[0].clone());
    assert!(!is_permissions_approval_session(&late));
    let worker = vec![
        r#"{"type":"session_meta","payload":{"thread_source":"subagent","agent_role":"worker"}}"#.to_string(),
        r#"{"payload":{"type":"message","role":"user","content":[{"type":"input_text","text":"run ajk-git-commit"}]}}"#.to_string(),
    ];
    assert!(is_ajk_git_commit_subagent_session(&worker));
    let not_worker = vec![worker[1].clone()];
    assert!(!is_ajk_git_commit_subagent_session(&not_worker));
}

#[test]
fn summaries_are_cut_at_two_hundred_characters() {
    let long = "é".repeat(205);
    let cut = truncate_summary_text(&long);
    assert_eq!(cut.chars().count(), 203);
    assert!(cut.ends_with("..."));
    assert_eq!(truncate_summary_text("short"), "short");
}

#[test]
fn first_k_positions_are_stable() {
    let keys = vec![
        SortKey { instant: None, text: "b".chars().collect() },
        SortKey { instant: Some((5, 0)), text: "a".chars().collect() },
        SortKey { instant: None, text: "b".chars().collect() },
        SortKey { instant: Some((9, 1)), text: "z".chars().collect() },
    ];
    assert_eq!(first_k_positions(&keys, 10), vec![3, 1, 0, 2]);
    assert_eq!(first_k_positions(&keys, 2), vec![3, 1]);
    assert_eq!(first_k_positions(&keys, 0), Vec::<usize>::new());
}
