use vstd::prelude::*;

use crate::codex::convert::{
    build_codex_message, jobj1, jobj2, jobj4, jstr, or_str, prefixed_number, spec_codex_message,
};
use crate::json::{items_view, group_json_view, Json, JsonNumber, JsonValue, NumberSpec};
use crate::models::{opt_str_ref, ClaudeMessage, MessageView};
use crate::text::{decimal, push_str, str_eq, string_from_chars, trim, trim_str};

verus! {

broadcast use group_json_view;

/// Whether an event is one that becomes a message (and advances the count).
pub open spec fn event_counts(payload: Json) -> bool {
    match payload.str_at("type"@) {
        Some(t) => t == "task_started"@ || t == "task_complete"@ || t == "context_compacted"@
            || t == "turn_aborted"@ || (t == "agent_reasoning"@ && match payload.str_at("text"@) {
            Some(x) => trim(x).len() > 0,
            None => false,
        }),
        None => false,
    }
}

pub open spec fn spec_event_counter(payload: Json, counter: u64) -> u64 {
    if event_counts(payload) {
        (counter + 1) as u64
    } else {
        counter
    }
}

/// A progress message for a task that started or completed.
pub open spec fn spec_task_message(
    payload: Json,
    session_id: Seq<char>,
    line_ts: Seq<char>,
    counter: u64,
    status: Seq<char>,
    text: Seq<char>,
) -> MessageView {
    let turn_id = payload.str_at("turn_id"@);
    MessageView {
        data: Some(
            jobj4(
                "type"@,
                jstr("waiting_for_task"@),
                "status"@,
                jstr(status),
                "taskId"@,
                jstr(or_str(turn_id, ""@)),
                "message"@,
                jstr(text),
            ),
        ),
        tool_use_id: turn_id,
        ..spec_codex_message(
            "codex-event-"@ + decimal(counter as nat),
            session_id,
            line_ts,
            "progress"@,
            None,
            None,
            None,
        )
    }
}

/// A Codex `event_msg` payload as a viewer message, given the running count
/// after it: task starts and completions become progress messages, a context
/// compaction and an aborted turn become system messages, reasoning with text
/// becomes a thinking message; every other event is dropped.
pub open spec fn spec_convert_codex_event(
    payload: Json,
    session_id: Seq<char>,
    line_ts: Seq<char>,
    counter: u64,
) -> Option<MessageView> {
    match payload.str_at("type"@) {
        None => None,
        Some(t) => if t == "task_started"@ {
            Some(
                spec_task_message(
                    payload,
                    session_id,
                    line_ts,
                    counter,
                    "started"@,
                    "Task started"@,
                ),
            )
        } else if t == "task_complete"@ {
            Some(
                spec_task_message(
                    payload,
                    session_id,
                    line_ts,
                    counter,
                    "completed"@,
                    "Task completed"@,
                ),
            )
        } else if t == "context_compacted"@ {
            Some(
                MessageView {
                    subtype: Some("microcompact_boundary"@),
                    level: Some("info"@),
                    microcompact_metadata: Some(jobj1("trigger"@, jstr("context_compacted"@))),
                    ..spec_codex_message(
                        "codex-event-"@ + decimal(counter as nat),
                        session_id,
                        line_ts,
                        "system"@,
                        None,
                        Some(jstr("Context compacted"@)),
                        None,
                    )
                },
            )
        } else if t == "agent_reasoning"@ {
            match payload.str_at("text"@) {
                None => None,
                Some(x) => {
                    let text = trim(x);
                    if text.len() == 0 {
                        None
                    } else {
                        Some(
                            spec_codex_message(
                                "codex-event-"@ + decimal(counter as nat),
                                session_id,
                                line_ts,
                                "assistant"@,
                                Some("assistant"@),
                                Some(
                                    Json::Array(
                                        seq![
                                            jobj2(
                                                "type"@,
                                                jstr("thinking"@),
                                                "thinking"@,
                                                jstr(text),
                                            ),
                                        ],
                                    ),
                                ),
                                None,
                            ),
                        )
                    }
                },
            }
        } else if t == "turn_aborted"@ {
            let reason = or_str(payload.str_at("reason"@), "unknown"@);
            let turn_id = or_str(payload.str_at("turn_id"@), ""@);
            let text = "[Turn Aborted] reason: "@ + reason + ", turn: "@ + turn_id;
            Some(
                MessageView {
                    subtype: Some("turn_aborted"@),
                    level: Some("warning"@),
                    ..spec_codex_message(
                        "codex-abort-"@ + decimal(counter as nat),
                        session_id,
                        line_ts,
                        "system"@,
                        None,
                        Some(
                            Json::Array(seq![jobj2("type"@, jstr("text"@), "text"@, jstr(text))]),
                        ),
                        None,
                    )
                },
            )
        } else {
            None
        },
    }
}

fn task_message(
    payload: &JsonValue,
    session_id: &str,
    line_timestamp: &str,
    counter: u64,
    status: &str,
    text: &str,
) -> (r: ClaudeMessage)
    ensures
        r@ == spec_task_message(payload@, session_id@, line_timestamp@, counter, status@, text@),
{
    let mut msg = build_codex_message(
        prefixed_number("codex-event-", counter),
        session_id,
        line_timestamp.to_owned(),
        "progress",
        None,
        None,
        None,
    );
    let turn_id = payload.str_at("turn_id");
    let task_id = match turn_id {
        Some(t) => t,
        None => "",
    };
    msg.data = Some(
        JsonValue::obj4(
            "type",
            JsonValue::from_str("waiting_for_task"),
            "status",
            JsonValue::from_str(status),
            "taskId",
            JsonValue::from_str(task_id),
            "message",
            JsonValue::from_str(text),
        ),
    );
    msg.tool_use_id = match turn_id {
        Some(t) => Some(t.to_owned()),
        None => None,
    };
    msg
}

/// Converts a Codex `event_msg` payload into a viewer message, counting the
/// events that become one.
pub fn convert_codex_event(
    payload: &JsonValue,
    session_id: &str,
    line_timestamp: &str,
    counter: &mut u64,
) -> (r: Option<ClaudeMessage>)
    requires
        *old(counter) < u64::MAX,
    ensures
        *final(counter) == spec_event_counter(payload@, *old(counter)),
        crate::codex::convert::opt_msg(r) == spec_convert_codex_event(
            payload@,
            session_id@,
            line_timestamp@,
            *final(counter),
        ),
{
    let event_type = match payload.str_at("type") {
        Some(t) => t,
        None => {
            return None;
        },
    };
    if str_eq(event_type, "task_started") {
        *counter = *counter + 1;
        Some(task_message(payload, session_id, line_timestamp, *counter, "started", "Task started"))
    } else if str_eq(event_type, "task_complete") {
        *counter = *counter + 1;
        Some(
            task_message(
                payload,
                session_id,
                line_timestamp,
                *counter,
                "completed",
                "Task completed",
            ),
        )
    } else if str_eq(event_type, "context_compacted") {
        *counter = *counter + 1;
        let mut msg = build_codex_message(
            prefixed_number("codex-event-", *counter),
            session_id,
            line_timestamp.to_owned(),
            "system",
            None,
            Some(JsonValue::from_str("Context compacted")),
            None,
        );
        msg.subtype = Some("microcompact_boundary".to_owned());
        msg.level = Some("info".to_owned());
        msg.microcompact_metadata = Some(
            JsonValue::obj1("trigger", JsonValue::from_str("context_compacted")),
        );
        Some(msg)
    } else if str_eq(event_type, "agent_reasoning") {
        proof {
            reveal_strlit("agent_reasoning");
            reveal_strlit("turn_aborted");
        }
        assert("agent_reasoning"@.len() != "turn_aborted"@.len());
        let raw = match payload.str_at("text") {
            Some(x) => x,
            None => {
                return None;
            },
        };
        let text = trim_str(raw);
        if text.as_str().is_empty() {
            return None;
        }
        *counter = *counter + 1;
        let block = JsonValue::obj2(
            "type",
            JsonValue::from_str("thinking"),
            "thinking",
            JsonValue::Str(text),
        );
        Some(
            build_codex_message(
                prefixed_number("codex-event-", *counter),
                session_id,
                line_timestamp.to_owned(),
                "assistant",
                Some("assistant"),
                Some(JsonValue::array1(block)),
                None,
            ),
        )
    } else if str_eq(event_type, "turn_aborted") {
        *counter = *counter + 1;
        let reason = match payload.str_at("reason") {
            Some(r) => r,
            None => "unknown",
        };
        let turn_id = match payload.str_at("turn_id") {
            Some(t) => t,
            None => "",
        };
        let mut v: Vec<char> = Vec::new();
        push_str(&mut v, "[Turn Aborted] reason: ");
        push_str(&mut v, reason);
        push_str(&mut v, ", turn: ");
        push_str(&mut v, turn_id);
        assert(v@ =~= "[Turn Aborted] reason: "@ + reason@ + ", turn: "@ + turn_id@);
        let block = JsonValue::obj2(
            "type",
            JsonValue::from_str("text"),
            "text",
            JsonValue::Str(string_from_chars(&v)),
        );
        let mut msg = build_codex_message(
            prefixed_number("codex-abort-", *counter),
            session_id,
            line_timestamp.to_owned(),
            "system",
            None,
            Some(JsonValue::array1(block)),
            None,
        );
        msg.subtype = Some("turn_aborted".to_owned());
        msg.level = Some("warning".to_owned());
        Some(msg)
    } else {
        None
    }
}

/// The number of entries in the payload's `replacement_history` array (0 where there is none).
pub open spec fn spec_replacement_history_count(payload: Json) -> nat {
    match payload.get("replacement_history"@) {
        Some(Json::Array(a)) => a.len(),
        _ => 0,
    }
}

/// A Codex `compacted` line as a system message, given the running count after it.
pub open spec fn spec_convert_codex_compacted(
    payload: Json,
    session_id: Seq<char>,
    line_ts: Seq<char>,
    counter: u64,
) -> MessageView {
    MessageView {
        subtype: Some("compact_boundary"@),
        level: Some("info"@),
        compact_metadata: Some(
            jobj2(
                "trigger"@,
                jstr("compacted"@),
                "replacementHistoryCount"@,
                Json::Number(NumberSpec::PosInt(spec_replacement_history_count(payload) as u64)),
            ),
        ),
        ..spec_codex_message(
            "codex-compacted-"@ + decimal(counter as nat),
            session_id,
            line_ts,
            "system"@,
            None,
            Some(jstr("Conversation compacted"@)),
            None,
        )
    }
}

/// Converts a Codex `compacted` line into a system message; it always counts.
pub fn convert_codex_compacted(
    payload: &JsonValue,
    session_id: &str,
    line_timestamp: &str,
    counter: &mut u64,
) -> (r: ClaudeMessage)
    requires
        *old(counter) < u64::MAX,
    ensures
        *final(counter) == *old(counter) + 1,
        r@ == spec_convert_codex_compacted(payload@, session_id@, line_timestamp@, *final(counter)),
{
    *counter = *counter + 1;
    let count: usize = match payload.get("replacement_history") {
        Some(JsonValue::Array(a)) => {
            assert(items_view(a@).len() == a@.len());
            a.len()
        },
        _ => 0,
    };
    assert(count == spec_replacement_history_count(payload@));
    let mut msg = build_codex_message(
        prefixed_number("codex-compacted-", *counter),
        session_id,
        line_timestamp.to_owned(),
        "system",
        None,
        Some(JsonValue::from_str("Conversation compacted")),
        None,
    );
    msg.subtype = Some("compact_boundary".to_owned());
    msg.level = Some("info".to_owned());
    msg.compact_metadata = Some(
        JsonValue::obj2(
            "trigger",
            JsonValue::from_str("compacted"),
            "replacementHistoryCount",
            JsonValue::Number(JsonNumber::PosInt(count as u64)),
        ),
    );
    msg
}

} // verus!
