use vstd::prelude::*;

use crate::codex::convert::{extract_text_from_content, or_str, spec_extract_text_from_content, str_or};
use crate::codex::rollout::lines_view;
use crate::codex::titles::{
    spec_title_candidate_from_user_message, spec_truncate_summary_text,
    title_candidate_from_user_message, truncate_summary_text,
};
use crate::json::{group_json_view, opt_view, Json, JsonValue};
use crate::models::opt_str;
use crate::text::str_eq;

verus! {

broadcast use group_json_view;

/// What the session list shows of one rollout file.
pub struct SessionInfo {
    pub session_id: String,
    pub cwd: Option<String>,
    pub model: Option<String>,
    pub message_count: usize,
    pub first_message_time: String,
    pub last_message_time: String,
    pub last_modified: String,
    pub file_path: String,
    pub has_tool_use: bool,
    pub summary: Option<String>,
}

/// What is gathered while reading a rollout file, line by line.
pub struct InfoState {
    pub session_id: Seq<char>,
    pub cwd: Option<Seq<char>>,
    pub model: Option<Seq<char>>,
    pub message_count: nat,
    pub first_time: Seq<char>,
    pub last_time: Seq<char>,
    pub has_tool_use: bool,
    pub summary: Option<Seq<char>>,
}

pub open spec fn initial_info_state() -> InfoState {
    InfoState {
        session_id: Seq::empty(),
        cwd: None,
        model: None,
        message_count: 0,
        first_time: Seq::empty(),
        last_time: Seq::empty(),
        has_tool_use: false,
        summary: None,
    }
}

/// Response items that call a tool.
pub open spec fn is_tool_call_type(t: Seq<char>) -> bool {
    t == "local_shell_call"@ || t == "function_call"@ || t == "custom_tool_call"@ || t
        == "web_search_call"@
}

/// Response items that carry a tool's output.
pub open spec fn is_tool_output_type(t: Seq<char>) -> bool {
    t == "function_call_output"@ || t == "custom_tool_call_output"@
}

/// The time of a message item: its own `created_at` where it has that key
/// (text, or nothing), else the line's timestamp.
pub open spec fn message_time(line: Json, payload: Json) -> Seq<char> {
    match payload.get("created_at"@) {
        Some(v) => or_str(v.as_str(), ""@),
        None => or_str(line.str_at("timestamp"@), ""@),
    }
}

/// The summary a user message gives: the title its first text block makes,
/// cut to the summary length.
pub open spec fn summary_from(payload: Json) -> Option<Seq<char>> {
    if payload.str_at("role"@) == Some("user"@) {
        match spec_extract_text_from_content(payload) {
            Some(text) => match spec_title_candidate_from_user_message(text) {
                Some(title) => Some(spec_truncate_summary_text(title)),
                None => None,
            },
            None => None,
        }
    } else {
        None
    }
}

/// One message item: it counts, its time moves the first and last times, and
/// the first user message that makes a title gives the summary.
pub open spec fn spec_message_step(st: InfoState, line: Json, payload: Json) -> InfoState {
    let ts = message_time(line, payload);
    InfoState {
        message_count: st.message_count + 1,
        first_time: if st.first_time.len() == 0 && ts.len() > 0 {
            ts
        } else {
            st.first_time
        },
        last_time: if ts.len() > 0 {
            ts
        } else {
            st.last_time
        },
        summary: if st.summary is None {
            summary_from(payload)
        } else {
            st.summary
        },
        ..st
    }
}

/// One line of a rollout file (nothing for a line that is no JSON).
pub open spec fn spec_info_step(st: InfoState, line: Option<Json>) -> InfoState {
    match line {
        None => st,
        Some(val) => {
            let line_type = or_str(val.str_at("type"@), ""@);
            match val.get("payload"@) {
                None => st,
                Some(payload) => if line_type == "session_meta"@ {
                    InfoState {
                        session_id: or_str(payload.str_at("id"@), ""@),
                        cwd: payload.str_at("cwd"@),
                        ..st
                    }
                } else if line_type == "turn_context"@ && st.model is None {
                    InfoState { model: payload.str_at("model"@), ..st }
                } else if line_type == "response_item"@ {
                    let item_type = or_str(payload.str_at("type"@), ""@);
                    if item_type == "message"@ {
                        spec_message_step(st, val, payload)
                    } else if is_tool_call_type(item_type) {
                        InfoState {
                            has_tool_use: true,
                            message_count: st.message_count + 1,
                            ..st
                        }
                    } else if is_tool_output_type(item_type) {
                        InfoState { message_count: st.message_count + 1, ..st }
                    } else {
                        st
                    }
                } else {
                    st
                },
            }
        },
    }
}

pub open spec fn spec_info_fold(lines: Seq<Option<Json>>) -> InfoState
    decreases lines.len(),
{
    if lines.len() == 0 {
        initial_info_state()
    } else {
        spec_info_step(spec_info_fold(lines.drop_last()), lines.last())
    }
}

pub struct SessionInfoView {
    pub session_id: Seq<char>,
    pub cwd: Option<Seq<char>>,
    pub model: Option<Seq<char>>,
    pub message_count: nat,
    pub first_message_time: Seq<char>,
    pub last_message_time: Seq<char>,
    pub last_modified: Seq<char>,
    pub file_path: Seq<char>,
    pub has_tool_use: bool,
    pub summary: Option<Seq<char>>,
}

impl View for SessionInfo {
    type V = SessionInfoView;

    open spec fn view(&self) -> SessionInfoView {
        SessionInfoView {
            session_id: self.session_id@,
            cwd: opt_str(self.cwd),
            model: opt_str(self.model),
            message_count: self.message_count as nat,
            first_message_time: self.first_message_time@,
            last_message_time: self.last_message_time@,
            last_modified: self.last_modified@,
            file_path: self.file_path@,
            has_tool_use: self.has_tool_use,
            summary: opt_str(self.summary),
        }
    }
}

/// The session info of the rollout file at `file_path`, given its lines as
/// parsed: the last modification is the time of the last message, or
/// `file_modified` (the file's own time) where no message has a time.
pub open spec fn spec_session_info(
    lines: Seq<Option<Json>>,
    file_path: Seq<char>,
    file_modified: Seq<char>,
) -> SessionInfoView {
    let st = spec_info_fold(lines);
    SessionInfoView {
        session_id: st.session_id,
        cwd: st.cwd,
        model: st.model,
        message_count: st.message_count,
        first_message_time: st.first_time,
        last_message_time: st.last_time,
        last_modified: if st.last_time.len() == 0 {
            file_modified
        } else {
            st.last_time
        },
        file_path,
        has_tool_use: st.has_tool_use,
        summary: st.summary,
    }
}

/// The reader's state while it goes through a rollout file.
struct InfoReader {
    session_id: String,
    cwd: Option<String>,
    model: Option<String>,
    message_count: usize,
    first_time: String,
    last_time: String,
    has_tool_use: bool,
    summary: Option<String>,
}

impl View for InfoReader {
    type V = InfoState;

    closed spec fn view(&self) -> InfoState {
        InfoState {
            session_id: self.session_id@,
            cwd: opt_str(self.cwd),
            model: opt_str(self.model),
            message_count: self.message_count as nat,
            first_time: self.first_time@,
            last_time: self.last_time@,
            has_tool_use: self.has_tool_use,
            summary: opt_str(self.summary),
        }
    }
}

fn summary_of(payload: &JsonValue) -> (r: Option<String>)
    ensures
        opt_str(r) == summary_from(payload@),
{
    match payload.str_at("role") {
        Some(role) => {
            if !str_eq(role, "user") {
                return None;
            }
        },
        None => {
            return None;
        },
    }
    match extract_text_from_content(payload) {
        Some(text) => match title_candidate_from_user_message(text.as_str()) {
            Some(title) => Some(truncate_summary_text(title.as_str())),
            None => None,
        },
        None => None,
    }
}

impl InfoReader {
    fn new() -> (r: InfoReader)
        ensures
            r@ == initial_info_state(),
    {
        InfoReader {
            session_id: String::new(),
            cwd: None,
            model: None,
            message_count: 0,
            first_time: String::new(),
            last_time: String::new(),
            has_tool_use: false,
            summary: None,
        }
    }

    fn step(&mut self, line: &Option<JsonValue>)
        requires
            old(self).message_count < usize::MAX,
        ensures
            final(self)@ == spec_info_step(old(self)@, opt_view(*line)),
            final(self).message_count <= old(self).message_count + 1,
    {
        let val = match line {
            Some(v) => v,
            None => {
                return ;
            },
        };
        let line_type = str_or(val.str_at("type"), "");
        let payload = match val.get("payload") {
            Some(p) => p,
            None => {
                return ;
            },
        };
        if str_eq(line_type, "session_meta") {
            self.session_id = str_or(payload.str_at("id"), "").to_owned();
            self.cwd = match payload.str_at("cwd") {
                Some(c) => Some(c.to_owned()),
                None => None,
            };
        } else if str_eq(line_type, "turn_context") && self.model.is_none() {
            self.model = match payload.str_at("model") {
                Some(m) => Some(m.to_owned()),
                None => None,
            };
        } else if str_eq(line_type, "response_item") {
            let item_type = str_or(payload.str_at("type"), "");
            if str_eq(item_type, "message") {
                self.message_count = self.message_count + 1;
                let ts = match payload.get("created_at") {
                    Some(v) => str_or(v.as_str(), ""),
                    None => str_or(val.str_at("timestamp"), ""),
                };
                if self.first_time.as_str().is_empty() && !ts.is_empty() {
                    self.first_time = ts.to_owned();
                }
                if !ts.is_empty() {
                    self.last_time = ts.to_owned();
                }
                if self.summary.is_none() {
                    self.summary = summary_of(payload);
                }
            } else if str_eq(item_type, "local_shell_call") || str_eq(item_type, "function_call")
                || str_eq(item_type, "custom_tool_call") || str_eq(item_type, "web_search_call") {
                self.has_tool_use = true;
                self.message_count = self.message_count + 1;
            } else if str_eq(item_type, "function_call_output") || str_eq(
                item_type,
                "custom_tool_call_output",
            ) {
                self.message_count = self.message_count + 1;
            }
        }
    }
}

/// The session info of one rollout file, given its lines as parsed (nothing
/// for a line that is no JSON), its path, and the file's modification time
/// for a session none of whose messages has a time.
pub fn session_info_from_lines(
    lines: &Vec<Option<JsonValue>>,
    file_path: &str,
    file_modified: &str,
) -> (r: SessionInfo)
    ensures
        r@ == spec_session_info(lines_view(lines@), file_path@, file_modified@),
{
    let ghost lv = lines_view(lines@);
    let mut reader = InfoReader::new();
    let mut i: usize = 0;
    assert(lv.take(0) =~= Seq::<Option<Json>>::empty());
    while i < lines.len()
        invariant
            i <= lines.len(),
            lv == lines_view(lines@),
            lv.len() == lines@.len(),
            reader.message_count <= i,
            reader@ == spec_info_fold(lv.take(i as int)),
        decreases lines.len() - i,
    {
        assert(lv.take(i + 1).drop_last() =~= lv.take(i as int));
        assert(lv.take(i + 1).last() == opt_view(lines@[i as int]));
        reader.step(&lines[i]);
        i = i + 1;
    }
    assert(lv.take(lines.len() as int) =~= lv);
    let last_modified = if reader.last_time.as_str().is_empty() {
        file_modified.to_owned()
    } else {
        reader.last_time.clone()
    };
    SessionInfo {
        session_id: reader.session_id,
        cwd: reader.cwd,
        model: reader.model,
        message_count: reader.message_count,
        first_message_time: reader.first_time,
        last_message_time: reader.last_time,
        last_modified,
        file_path: file_path.to_owned(),
        has_tool_use: reader.has_tool_use,
        summary: reader.summary,
    }
}

/// Reads the session info of one rollout file, given its lines.
pub fn extract_session_info(lines: &Vec<Vec<u8>>, file_path: &str, file_modified: &str) -> (r:
    SessionInfo)
    ensures
        r@ == spec_session_info(
            lines@.map_values(|l: Vec<u8>| crate::json::simd_json_parsed(l@)),
            file_path@,
            file_modified@,
        ),
{
    let mut parsed: Vec<Option<JsonValue>> = Vec::new();
    let mut i: usize = 0;
    while i < lines.len()
        invariant
            i <= lines.len(),
            parsed.len() == i,
            forall|j: int|
                0 <= j < i ==> opt_view(#[trigger] parsed@[j]) == crate::json::simd_json_parsed(
                    lines@[j]@,
                ),
        decreases lines.len() - i,
    {
        parsed.push(JsonValue::parse_line(lines[i].as_slice()));
        i = i + 1;
    }
    assert(lines_view(parsed@) =~= lines@.map_values(
        |l: Vec<u8>| crate::json::simd_json_parsed(l@),
    ));
    session_info_from_lines(&parsed, file_path, file_modified)
}

} // verus!
