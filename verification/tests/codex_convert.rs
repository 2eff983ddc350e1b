use history_viewer::codex::convert::{
    arguments_from_parsed, build_codex_message, tool_output_from_parsed, convert_codex_content_array, convert_codex_item, map_codex_tool_name,
    normalize_custom_tool_input, normalize_tool_input, normalize_tool_output,
    normalize_web_search_input,
};
use history_viewer::codex::events::{convert_codex_compacted, convert_codex_event};
use history_viewer::codex::rollout::{extract_token_totals, try_merge_tool_result_into_previous};
use history_viewer::json::JsonValue;

fn json(text: &str) -> JsonValue {
    JsonValue::parse_text(text).expect("fixture should be JSON")
}

fn str_of<'a>(v: Option<&'a JsonValue>) -> Option<&'a str> {
    v.and_then(|x| x.as_str())
}

#[test]
fn map_exec_command_to_bash() {
    assert_eq!(map_codex_tool_name("exec_command"), "Bash");
    assert_eq!(map_codex_tool_name("shell"), "Bash");
    assert_eq!(map_codex_tool_name("write_stdin"), "Bash");
    assert_eq!(map_codex_tool_name("batch_execute"), "batch_execute");
}

#[test]
fn normalize_bash_input_maps_cmd_to_command() {
    let mut input = json(r#"{ "cmd": "pwd && ls -la" }"#);
    normalize_tool_input("Bash", &mut input);
    assert_eq!(str_of(input.get("command")), Some("pwd && ls -la"));
}

#[test]
fn normalize_bash_input_maps_command_array_to_string() {
    let mut input = json(r#"{ "command": ["bash", "-lc", "pwd"] }"#);
    normalize_tool_input("Bash", &mut input);
    assert_eq!(str_of(input.get("command")), Some("bash -lc pwd"));
}

#[test]
fn normalize_tool_output_extracts_wrapped_output() {
    let wrapped = "Chunk ID: abc\nWall time: 0.01 seconds\nOutput:\nhello\nworld";
    let out = normalize_tool_output(JsonValue::Str(wrapped.to_string()));
    assert_eq!(out.as_str(), Some("hello\nworld"));
}

#[test]
fn normalize_tool_output_extracts_json_output_field() {
    let out = normalize_tool_output(JsonValue::Str(
        r#"{"output":"done","metadata":{"exit_code":0}}"#.to_string(),
    ));
    assert_eq!(out.as_str(), Some("done"));
}

#[test]
fn parse_nested_token_count_totals() {
    let payload = json(
        r#"{
            "type": "token_count",
            "info": {
                "total_token_usage": {
                    "input_tokens": 120,
                    "output_tokens": 30
                }
            }
        }"#,
    );
    assert_eq!(extract_token_totals(&payload), Some((120, 30, 0)));
}

#[test]
fn normalize_custom_tool_input_wraps_apply_patch_text() {
    let mut input = JsonValue::Str("*** Begin Patch".to_string());
    normalize_custom_tool_input("apply_patch", &mut input);
    assert_eq!(str_of(input.get("patch")), Some("*** Begin Patch"));
}

#[test]
fn normalize_web_search_input_extracts_query_and_type() {
    let input = normalize_web_search_input(json(
        r#"{
            "type": "search",
            "query": "codex parser",
            "queries": ["codex parser", "codex rollout"]
        }"#,
    ));
    assert_eq!(str_of(input.get("query")), Some("codex parser"));
    assert_eq!(str_of(input.get("action_type")), Some("search"));
    assert!(input.get("queries").is_some());
}

#[test]
fn convert_content_array_maps_input_image_to_image() {
    let content = json(r#"[{ "type": "input_image", "image_url": "data:image/png;base64,abc" }]"#);
    let converted =
        convert_codex_content_array(Some(&content)).expect("content should be converted");
    let arr = converted
        .as_array()
        .expect("converted content should be an array");
    assert_eq!(arr.len(), 1);
    assert_eq!(str_of(arr[0].get("type")), Some("image"));
    assert_eq!(
        str_of(arr[0].get("source").and_then(|v| v.get("url"))),
        Some("data:image/png;base64,abc")
    );
}

#[test]
fn convert_custom_tool_call_to_tool_use() {
    let mut counter = 0u64;
    let item = json(
        r#"{
            "type": "custom_tool_call",
            "name": "apply_patch",
            "call_id": "call_patch_1",
            "input": "*** Begin Patch"
        }"#,
    );
    let msg = convert_codex_item(&item, "session-1", None, "2026-02-19T12:00:00Z", &mut counter)
        .expect("custom_tool_call should be converted");
    assert_eq!(msg.message_type, "assistant");
    let arr = msg
        .content
        .as_ref()
        .and_then(|v| v.as_array())
        .expect("content should be an array");
    assert_eq!(str_of(arr[0].get("type")), Some("tool_use"));
    assert_eq!(str_of(arr[0].get("name")), Some("apply_patch"));
    assert_eq!(
        str_of(arr[0].get("input").and_then(|v| v.get("patch"))),
        Some("*** Begin Patch")
    );
}

#[test]
fn convert_custom_tool_call_output_to_tool_result() {
    let mut counter = 0u64;
    let item = json(
        r#"{
            "type": "custom_tool_call_output",
            "call_id": "call_patch_1",
            "output": "{\"output\":\"Success. Updated files\",\"metadata\":{\"exit_code\":0}}"
        }"#,
    );
    let msg = convert_codex_item(&item, "session-1", None, "2026-02-19T12:00:01Z", &mut counter)
        .expect("custom_tool_call_output should be converted");
    assert_eq!(msg.message_type, "user");
    let arr = msg
        .content
        .as_ref()
        .and_then(|v| v.as_array())
        .expect("content should be an array");
    assert_eq!(str_of(arr[0].get("type")), Some("tool_result"));
    assert_eq!(str_of(arr[0].get("tool_use_id")), Some("call_patch_1"));
    assert_eq!(str_of(arr[0].get("content")), Some("Success. Updated files"));
}

#[test]
fn convert_web_search_call_to_web_search_tool_use() {
    let mut counter = 0u64;
    let item = json(
        r#"{
            "type": "web_search_call",
            "action": { "type": "open_page", "url": "https://example.com" }
        }"#,
    );
    let msg = convert_codex_item(&item, "session-1", None, "2026-02-19T12:00:02Z", &mut counter)
        .expect("web_search_call should be converted");
    assert_eq!(msg.message_type, "assistant");
    let arr = msg
        .content
        .as_ref()
        .and_then(|v| v.as_array())
        .expect("content should be an array");
    assert_eq!(str_of(arr[0].get("type")), Some("tool_use"));
    assert_eq!(str_of(arr[0].get("name")), Some("WebSearch"));
    assert_eq!(
        str_of(arr[0].get("input").and_then(|v| v.get("query"))),
        Some("https://example.com")
    );
}

#[test]
fn merge_tool_result_into_previous_tool_use_message() {
    let mut messages = vec![build_codex_message(
        "assistant-1".to_string(),
        "session-1",
        "2026-02-19T12:00:00Z".to_string(),
        "assistant",
        Some("assistant"),
        Some(json(
            r#"[{ "type": "tool_use", "id": "call_abc", "name": "Bash", "input": { "command": "pwd" } }]"#,
        )),
        None,
    )];
    let result_msg = build_codex_message(
        "user-1".to_string(),
        "session-1",
        "2026-02-19T12:00:01Z".to_string(),
        "user",
        Some("user"),
        Some(json(r#"[{ "type": "tool_result", "tool_use_id": "call_abc", "content": "ok" }]"#)),
        None,
    );
    assert!(try_merge_tool_result_into_previous(&mut messages, &result_msg));
    let merged_arr = messages[0]
        .content
        .as_ref()
        .and_then(|v| v.as_array())
        .expect("assistant message content should be an array");
    assert_eq!(merged_arr.len(), 2);
    assert_eq!(str_of(merged_arr[1].get("type")), Some("tool_result"));
}

#[test]
fn build_codex_message_sets_tool_use_from_content() {
    let msg = build_codex_message(
        "assistant-1".to_string(),
        "session-1",
        "2026-02-19T12:00:00Z".to_string(),
        "assistant",
        Some("assistant"),
        Some(json(
            r#"[{ "type": "tool_use", "id": "call_1", "name": "Bash", "input": {"command": "pwd"} }]"#,
        )),
        None,
    );
    assert!(msg.tool_use.is_some());
    assert_eq!(
        str_of(msg.tool_use.as_ref().and_then(|v| v.get("name"))),
        Some("Bash")
    );
}

#[test]
fn convert_task_started_event_to_progress_message() {
    let mut counter = 0u64;
    let payload = json(r#"{ "type": "task_started", "turn_id": "turn_1" }"#);
    let msg = convert_codex_event(&payload, "session-1", "2026-02-19T12:00:00Z", &mut counter)
        .expect("task_started should be converted");
    assert_eq!(msg.message_type, "progress");
    assert_eq!(
        str_of(msg.data.as_ref().and_then(|v| v.get("status"))),
        Some("started")
    );
}

#[test]
fn convert_context_compacted_event_to_system_message() {
    let mut counter = 0u64;
    let payload = json(r#"{ "type": "context_compacted" }"#);
    let msg = convert_codex_event(&payload, "session-1", "2026-02-19T12:00:00Z", &mut counter)
        .expect("context_compacted should be converted");
    assert_eq!(msg.message_type, "system");
    assert_eq!(msg.subtype.as_deref(), Some("microcompact_boundary"));
}

#[test]
fn convert_agent_reasoning_event_to_thinking_message() {
    let mut counter = 0u64;
    let payload = json(r#"{ "type": "agent_reasoning", "text": "**Inspecting parsers**" }"#);
    let msg = convert_codex_event(&payload, "session-1", "2026-02-19T12:00:00Z", &mut counter)
        .expect("agent_reasoning should be converted");
    assert_eq!(msg.message_type, "assistant");
    let arr = msg
        .content
        .as_ref()
        .and_then(|v| v.as_array())
        .expect("content should be an array");
    assert_eq!(str_of(arr[0].get("type")), Some("thinking"));
    assert_eq!(str_of(arr[0].get("thinking")), Some("**Inspecting parsers**"));
}

#[test]
fn convert_agent_reasoning_event_skips_empty_text() {
    let mut counter = 0u64;
    let payload = json(r#"{ "type": "agent_reasoning", "text": "   " }"#);
    let msg = convert_codex_event(&payload, "session-1", "2026-02-19T12:00:00Z", &mut counter);
    assert!(msg.is_none());
    assert_eq!(counter, 0);
}

#[test]
fn convert_agent_message_event_not_handled() {
    let mut counter = 0u64;
    let payload = json(r#"{ "type": "agent_message", "message": "Working on requested changes" }"#);
    let msg = convert_codex_event(&payload, "session-1", "2026-02-19T12:00:00Z", &mut counter);
    assert!(msg.is_none());
}

#[test]
fn convert_user_message_event_not_handled() {
    let mut counter = 0u64;
    let payload = json(r#"{ "type": "user_message", "message": "Please patch this file" }"#);
    let msg = convert_codex_event(&payload, "session-1", "2026-02-19T12:00:00Z", &mut counter);
    assert!(msg.is_none());
}

#[test]
fn convert_compacted_line_to_system_message() {
    let mut counter = 0u64;
    let payload = json(r#"{ "message": "", "replacement_history": [{"type":"message"}] }"#);
    let msg = convert_codex_compacted(&payload, "session-1", "2026-02-19T12:00:00Z", &mut counter);
    assert_eq!(msg.message_type, "system");
    assert_eq!(msg.subtype.as_deref(), Some("compact_boundary"));
    assert_eq!(
        msg.compact_metadata
            .as_ref()
            .and_then(|v| v.get("replacementHistoryCount"))
            .and_then(|v| v.as_u64()),
        Some(1)
    );
}

#[test]
fn arguments_from_parsed_uses_the_parse_or_an_empty_object() {
    let parsed = json(r#"{"cmd":"ls"}"#);
    let r = arguments_from_parsed(Some(parsed));
    assert_eq!(str_of(r.get("cmd")), Some("ls"));
    let empty = arguments_from_parsed(None);
    assert!(empty.is_object());
    assert!(matches!(empty, JsonValue::Object(ref v) if v.is_empty()));
}

#[test]
fn tool_output_from_parsed_prefers_the_output_field() {
    let raw = r#"{"output":"done","metadata":{}}"#.to_string();
    let r = tool_output_from_parsed(raw.clone(), Some(json(&raw)));
    assert_eq!(r.as_str(), Some("done"));
    let text = "Exit code: 0\nOutput:\nhello".to_string();
    let r = tool_output_from_parsed(text.clone(), None);
    assert_eq!(r.as_str(), Some("hello"));
    let plain = tool_output_from_parsed("just text".to_string(), None);
    assert_eq!(plain.as_str(), Some("just text"));
    let no_output = tool_output_from_parsed(r#"{"x":1}"#.to_string(), Some(json(r#"{"x":1}"#)));
    assert_eq!(no_output.as_str(), Some(r#"{"x":1}"#));
}
