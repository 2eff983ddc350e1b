use vstd::prelude::*;

use crate::codex::convert::{
    convert_codex_item, is_str_eq, opt_msg, opt_string_ref, or_str, spec_convert_codex_item,
    spec_item_counter,
};
use crate::codex::events::{
    convert_codex_compacted, convert_codex_event, spec_convert_codex_compacted,
    spec_convert_codex_event, spec_event_counter,
};
use crate::codex::paths::{project_name_from_cwd, spec_project_name_from_cwd};
use crate::json::{group_json_view, items_view, opt_ref_view, opt_view, Json, JsonValue};
use crate::models::{opt_str, opt_str_ref, ClaudeMessage, MessageView, TokenUsage, UsageView};
use crate::text::str_eq;

verus! {

broadcast use group_json_view;

// ---------------------------------------------------------------------------
// Token counts
// ---------------------------------------------------------------------------

/// `(input, output, cached)` from `payload.info.<key>`: the first two must be
/// non-negative integers, the cached count is 0 where it is missing; each is
/// cut to 32 bits.
pub open spec fn spec_token_usage_at(payload: Json, key: Seq<char>) -> Option<(u32, u32, u32)> {
    match payload.get("info"@) {
        None => None,
        Some(info) => match info.get(key) {
            None => None,
            Some(u) => {
                let i = match u.get("input_tokens"@) {
                    Some(v) => v.as_u64(),
                    None => None,
                };
                let o = match u.get("output_tokens"@) {
                    Some(v) => v.as_u64(),
                    None => None,
                };
                let c = match u.get("cached_input_tokens"@) {
                    Some(v) => match v.as_u64() {
                        Some(n) => n,
                        None => 0,
                    },
                    None => 0,
                };
                match (i, o) {
                    (Some(i), Some(o)) => Some((i as u32, o as u32, c as u32)),
                    _ => None,
                }
            },
        },
    }
}

/// Recent Codex logs keep running totals in `info.total_token_usage`.
pub open spec fn spec_extract_token_totals(payload: Json) -> Option<(u32, u32, u32)> {
    spec_token_usage_at(payload, "total_token_usage"@)
}

/// Other logs only keep the last turn's counts in `info.last_token_usage`.
pub open spec fn spec_extract_last_token_usage(payload: Json) -> Option<(u32, u32, u32)> {
    spec_token_usage_at(payload, "last_token_usage"@)
}

fn token_usage_at(payload: &JsonValue, key: &str) -> (r: Option<(u32, u32, u32)>)
    ensures
        r == spec_token_usage_at(payload@, key@),
{
    let info = match payload.get("info") {
        Some(v) => v,
        None => {
            return None;
        },
    };
    let u = match info.get(key) {
        Some(v) => v,
        None => {
            return None;
        },
    };
    let i = match u.get("input_tokens") {
        Some(v) => v.as_u64(),
        None => None,
    };
    let o = match u.get("output_tokens") {
        Some(v) => v.as_u64(),
        None => None,
    };
    let c: u64 = match u.get("cached_input_tokens") {
        Some(v) => match v.as_u64() {
            Some(n) => n,
            None => 0,
        },
        None => 0,
    };
    match (i, o) {
        (Some(i), Some(o)) => Some((i as u32, o as u32, c as u32)),
        _ => None,
    }
}

pub fn extract_token_totals(payload: &JsonValue) -> (r: Option<(u32, u32, u32)>)
    ensures
        r == spec_extract_token_totals(payload@),
{
    token_usage_at(payload, "total_token_usage")
}

pub fn extract_last_token_usage(payload: &JsonValue) -> (r: Option<(u32, u32, u32)>)
    ensures
        r == spec_extract_last_token_usage(payload@),
{
    token_usage_at(payload, "last_token_usage")
}

// ---------------------------------------------------------------------------
// Merging tool results into the call they answer
// ---------------------------------------------------------------------------

/// A user message whose first content block is a `tool_result` with an id:
/// that id and that block.
pub open spec fn spec_extract_tool_result_block(msg: MessageView) -> Option<(Seq<char>, Json)> {
    match msg.content {
        Some(Json::Array(a)) => if a.len() > 0 && a[0].str_at("type"@) == Some("tool_result"@) {
            match a[0].str_at("tool_use_id"@) {
                Some(id) => Some((id, a[0])),
                None => None,
            }
        } else {
            None
        },
        _ => None,
    }
}

/// The message's content holds a `tool_use` block with this id.
pub open spec fn spec_has_matching_tool_use(msg: MessageView, id: Seq<char>) -> bool {
    match msg.content {
        Some(Json::Array(a)) => exists|k: int|
            0 <= k < a.len() && #[trigger] a[k].str_at("type"@) == Some("tool_use"@) && a[k].str_at(
                "id"@,
            ) == Some(id),
        _ => false,
    }
}

/// The message with `block` added at the end of its content (which becomes
/// an array holding only `block` where it was no array).
pub open spec fn spec_append_content_block(msg: MessageView, block: Json) -> MessageView {
    MessageView {
        content: Some(
            match msg.content {
                Some(Json::Array(a)) => Json::Array(a.push(block)),
                _ => Json::Array(seq![block]),
            },
        ),
        ..msg
    }
}

/// The last assistant message whose content calls the tool with this id.
pub open spec fn merge_target(msgs: Seq<MessageView>, id: Seq<char>) -> Option<int>
    decreases msgs.len(),
{
    if msgs.len() == 0 {
        None
    } else if msgs.last().message_type == "assistant"@ && spec_has_matching_tool_use(
        msgs.last(),
        id,
    ) {
        Some(msgs.len() - 1)
    } else {
        merge_target(msgs.drop_last(), id)
    }
}

pub proof fn lemma_merge_target(msgs: Seq<MessageView>, id: Seq<char>)
    ensures
        merge_target(msgs, id) matches Some(j) ==> 0 <= j < msgs.len(),
    decreases msgs.len(),
{
    if msgs.len() > 0 {
        lemma_merge_target(msgs.drop_last(), id);
    }
}

/// The messages after a tool result `msg` is merged into the call it answers;
/// nothing where it answers no earlier call (and so stands on its own).
pub open spec fn spec_try_merge(msgs: Seq<MessageView>, msg: MessageView) -> Option<
    Seq<MessageView>,
> {
    if msg.message_type != "user"@ {
        None
    } else {
        match spec_extract_tool_result_block(msg) {
            None => None,
            Some((id, block)) => match merge_target(msgs, id) {
                Some(j) => Some(msgs.update(j, spec_append_content_block(msgs[j], block))),
                None => None,
            },
        }
    }
}

pub open spec fn msgs_view(v: Seq<ClaudeMessage>) -> Seq<MessageView> {
    v.map_values(|m: ClaudeMessage| m@)
}

pub fn extract_tool_result_block(msg: &ClaudeMessage) -> (r: Option<(String, JsonValue)>)
    ensures
        r matches Some((id, b)) ==> spec_extract_tool_result_block(msg@) == Some((id@, b@)),
        r is None ==> spec_extract_tool_result_block(msg@) is None,
{
    let arr = match &msg.content {
        Some(JsonValue::Array(a)) => a,
        _ => {
            return None;
        },
    };
    if arr.len() == 0 {
        return None;
    }
    let first = &arr[0];
    assert(items_view(arr@)[0] == first@);
    if !is_str_eq(first.str_at("type"), "tool_result") {
        return None;
    }
    match first.str_at("tool_use_id") {
        Some(id) => Some((id.to_owned(), first.deep_clone())),
        None => None,
    }
}

#[verifier::loop_isolation(false)]
pub fn has_matching_tool_use(msg: &ClaudeMessage, tool_use_id: &str) -> (r: bool)
    ensures
        r == spec_has_matching_tool_use(msg@, tool_use_id@),
{
    let arr = match &msg.content {
        Some(JsonValue::Array(a)) => a,
        _ => {
            return false;
        },
    };
    let ghost iv = items_view(arr@);
    let mut i: usize = 0;
    while i < arr.len()
        invariant
            i <= arr.len(),
            iv.len() == arr@.len(),
            forall|k: int|
                0 <= k < i ==> !(#[trigger] iv[k].str_at("type"@) == Some("tool_use"@) && iv[k].str_at(
                    "id"@,
                ) == Some(tool_use_id@)),
        decreases arr.len() - i,
    {
        assert(iv[i as int] == arr@[i as int]@);
        if is_str_eq(arr[i].str_at("type"), "tool_use") && is_str_eq(
            arr[i].str_at("id"),
            tool_use_id,
        ) {
            return true;
        }
        i = i + 1;
    }
    false
}

pub fn append_content_block(msg: &mut ClaudeMessage, block: JsonValue)
    ensures
        final(msg)@ == spec_append_content_block(old(msg)@, block@),
{
    let ghost b = block@;
    let mut content: Option<JsonValue> = None;
    std::mem::swap(&mut content, &mut msg.content);
    match content {
        Some(JsonValue::Array(mut arr)) => {
            let ghost before = arr@;
            arr.push(block);
            assert(items_view(arr@) =~= items_view(before).push(b));
            msg.content = Some(JsonValue::Array(arr));
        },
        _ => {
            msg.content = Some(JsonValue::array1(block));
        },
    }
}

/// Merges a tool result into the last assistant message that made the call;
/// reports whether it did.
#[verifier::loop_isolation(false)]
pub fn try_merge_tool_result_into_previous(messages: &mut Vec<ClaudeMessage>, msg: &ClaudeMessage) -> (r: bool)
    ensures
        r == spec_try_merge(msgs_view(old(messages)@), msg@) is Some,
        r ==> msgs_view(final(messages)@) == spec_try_merge(msgs_view(old(messages)@), msg@)->0,
        !r ==> final(messages)@ == old(messages)@,
{
    let ghost mv = msgs_view(messages@);
    if !str_eq(msg.message_type.as_str(), "user") {
        return false;
    }
    let (tool_use_id, block) = match extract_tool_result_block(msg) {
        Some(p) => p,
        None => {
            return false;
        },
    };
    let mut i: usize = messages.len();
    assert(mv.take(i as int) =~= mv);
    while i > 0
        invariant
            i <= messages.len(),
            messages@ == old(messages)@,
            mv == msgs_view(messages@),
            merge_target(mv, tool_use_id@) == merge_target(mv.take(i as int), tool_use_id@),
        decreases i,
    {
        let ghost t = mv.take(i as int);
        assert(t.drop_last() =~= mv.take(i - 1));
        assert(t.last() == messages@[i - 1]@);
        let j = i - 1;
        if str_eq(messages[j].message_type.as_str(), "assistant") && has_matching_tool_use(
            &messages[j],
            tool_use_id.as_str(),
        ) {
            proof {
                lemma_merge_target(mv, tool_use_id@);
            }
            let ghost old_m = messages@[j as int]@;
            append_content_block(&mut messages[j], block);
            assert(msgs_view(messages@) =~= mv.update(j as int, spec_append_content_block(old_m, block@)));
            return true;
        }
        i = j;
    }
    assert(mv.take(0) =~= Seq::<MessageView>::empty());
    false
}


// ---------------------------------------------------------------------------
// Reading a rollout file line by line
// ---------------------------------------------------------------------------

/// What the reader knows after some lines of a rollout file.
pub struct RolloutState {
    pub messages: Seq<MessageView>,
    pub session_id: Seq<char>,
    pub project_name: Option<Seq<char>>,
    pub model: Option<Seq<char>>,
    pub prev_input: u32,
    pub prev_output: u32,
    pub prev_cached: u32,
    pub counter: u64,
}

pub open spec fn initial_rollout_state() -> RolloutState {
    RolloutState {
        messages: Seq::empty(),
        session_id: Seq::empty(),
        project_name: None,
        model: None,
        prev_input: 0,
        prev_output: 0,
        prev_cached: 0,
        counter: 0,
    }
}

pub open spec fn sat_sub(a: u32, b: u32) -> u32 {
    if a >= b {
        (a - b) as u32
    } else {
        0
    }
}

/// The usage recorded for a token count: the growth of the running totals
/// since the previous count (the totals themselves for the first count), with
/// the cached input split off the input.
pub open spec fn spec_usage_for(st: RolloutState, totals: (u32, u32, u32)) -> UsageView {
    let (i, o, c) = totals;
    let (di, dout, dc) = if st.prev_input == 0 && st.prev_output == 0 {
        (i, o, c)
    } else {
        (sat_sub(i, st.prev_input), sat_sub(o, st.prev_output), sat_sub(c, st.prev_cached))
    };
    UsageView {
        input_tokens: Some(sat_sub(di, dc)),
        output_tokens: Some(dout),
        cache_creation_input_tokens: None,
        cache_read_input_tokens: Some(dc),
        service_tier: None,
    }
}

/// The usage goes to the last message where that is an assistant message
/// without usage yet.
pub open spec fn spec_apply_usage(msgs: Seq<MessageView>, usage: UsageView) -> Seq<MessageView> {
    if msgs.len() > 0 && msgs.last().message_type == "assistant"@ && msgs.last().usage is None {
        msgs.update(msgs.len() - 1, MessageView { usage: Some(usage), ..msgs.last() })
    } else {
        msgs
    }
}

pub open spec fn spec_push_or_merge(msgs: Seq<MessageView>, m: MessageView) -> Seq<MessageView> {
    match spec_try_merge(msgs, m) {
        Some(merged) => merged,
        None => msgs.push(m),
    }
}

/// One line of a rollout file.
pub open spec fn spec_rollout_step(st: RolloutState, line: Option<Json>) -> RolloutState {
    match line {
        None => st,
        Some(val) => {
            let ts = or_str(val.str_at("timestamp"@), ""@);
            let line_type = or_str(val.str_at("type"@), ""@);
            match val.get("payload"@) {
                None => st,
                Some(payload) => if line_type == "session_meta"@ {
                    RolloutState {
                        session_id: or_str(payload.str_at("id"@), "unknown"@),
                        project_name: match payload.str_at("cwd"@) {
                            Some(cwd) => Some(spec_project_name_from_cwd(cwd)),
                            None => None,
                        },
                        ..st
                    }
                } else if line_type == "turn_context"@ {
                    match payload.str_at("model"@) {
                        Some(m) => RolloutState { model: Some(m), ..st },
                        None => st,
                    }
                } else if line_type == "response_item"@ {
                    let counter = spec_item_counter(payload, st.counter);
                    let messages = match spec_convert_codex_item(
                        payload,
                        st.session_id,
                        st.model,
                        ts,
                        counter,
                    ) {
                        Some(m) => spec_push_or_merge(st.messages, m),
                        None => st.messages,
                    };
                    RolloutState { messages, counter, ..st }
                } else if line_type == "event_msg"@ {
                    let event_type = or_str(payload.str_at("type"@), ""@);
                    if event_type == "user_message"@ || event_type == "agent_message"@ {
                        st
                    } else if event_type == "token_count"@ {
                        let totals = match spec_extract_token_totals(payload) {
                            Some(t) => Some(t),
                            None => spec_extract_last_token_usage(payload),
                        };
                        match totals {
                            None => st,
                            Some(t) => RolloutState {
                                messages: spec_apply_usage(st.messages, spec_usage_for(st, t)),
                                prev_input: t.0,
                                prev_output: t.1,
                                prev_cached: t.2,
                                ..st
                            },
                        }
                    } else {
                        let counter = spec_event_counter(payload, st.counter);
                        let messages = match spec_convert_codex_event(
                            payload,
                            st.session_id,
                            ts,
                            counter,
                        ) {
                            Some(m) => st.messages.push(m),
                            None => st.messages,
                        };
                        RolloutState { messages, counter, ..st }
                    }
                } else if line_type == "compacted"@ {
                    let counter = (st.counter + 1) as u64;
                    RolloutState {
                        messages: st.messages.push(
                            spec_convert_codex_compacted(payload, st.session_id, ts, counter),
                        ),
                        counter,
                        ..st
                    }
                } else {
                    st
                },
            }
        },
    }
}

pub open spec fn spec_rollout_fold(lines: Seq<Option<Json>>) -> RolloutState
    decreases lines.len(),
{
    if lines.len() == 0 {
        initial_rollout_state()
    } else {
        spec_rollout_step(spec_rollout_fold(lines.drop_last()), lines.last())
    }
}

/// The messages of a rollout file, given its lines as parsed (nothing for a
/// line that is no JSON): every message carries the project of the session's
/// working directory where the session names one.
pub open spec fn spec_rollout_messages(lines: Seq<Option<Json>>) -> Seq<MessageView> {
    let st = spec_rollout_fold(lines);
    match st.project_name {
        Some(p) => st.messages.map_values(|m: MessageView| MessageView { project_name: Some(p), ..m }),
        None => st.messages,
    }
}

pub open spec fn lines_view(lines: Seq<Option<JsonValue>>) -> Seq<Option<Json>> {
    lines.map_values(|l: Option<JsonValue>| opt_view(l))
}

/// The reader's state while it goes through a rollout file.
pub struct RolloutReader {
    pub messages: Vec<ClaudeMessage>,
    pub session_id: String,
    pub project_name: Option<String>,
    pub model: Option<String>,
    pub prev_input: u32,
    pub prev_output: u32,
    pub prev_cached: u32,
    pub counter: u64,
}

impl View for RolloutReader {
    type V = RolloutState;

    open spec fn view(&self) -> RolloutState {
        RolloutState {
            messages: msgs_view(self.messages@),
            session_id: self.session_id@,
            project_name: opt_str(self.project_name),
            model: opt_str(self.model),
            prev_input: self.prev_input,
            prev_output: self.prev_output,
            prev_cached: self.prev_cached,
            counter: self.counter,
        }
    }
}

fn sat_sub_exec(a: u32, b: u32) -> (r: u32)
    ensures
        r == sat_sub(a, b),
{
    if a >= b {
        a - b
    } else {
        0
    }
}

fn set_usage(m: &mut ClaudeMessage, usage: TokenUsage)
    ensures
        final(m)@ == (MessageView { usage: Some(usage@), ..old(m)@ }),
{
    m.usage = Some(usage);
}

fn set_project_name(m: &mut ClaudeMessage, p: &String)
    ensures
        final(m)@ == (MessageView { project_name: Some(p@), ..old(m)@ }),
{
    m.project_name = Some(p.clone());
}

pub proof fn lemma_msgs_view_update(v: Seq<ClaudeMessage>, i: int, m: ClaudeMessage)
    requires
        0 <= i < v.len(),
    ensures
        msgs_view(v.update(i, m)) == msgs_view(v).update(i, m@),
{
    assert(msgs_view(v.update(i, m)) =~= msgs_view(v).update(i, m@));
}

fn apply_usage(messages: &mut Vec<ClaudeMessage>, usage: TokenUsage)
    ensures
        msgs_view(final(messages)@) == spec_apply_usage(msgs_view(old(messages)@), usage@),
{
    let n = messages.len();
    if n == 0 {
        return ;
    }
    let ghost mv = msgs_view(messages@);
    assert(mv.last() == messages@[n - 1]@);
    if str_eq(messages[n - 1].message_type.as_str(), "assistant") && messages[n - 1].usage.is_none() {
        let ghost old_v = messages@;
        set_usage(&mut messages[n - 1], usage);
        proof {
            lemma_msgs_view_update(old_v, n - 1, messages@[n - 1]);
            assert(messages@ == old_v.update(n - 1, messages@[n - 1]));
        }
    }
}

fn push_or_merge(messages: &mut Vec<ClaudeMessage>, m: ClaudeMessage)
    ensures
        msgs_view(final(messages)@) == spec_push_or_merge(msgs_view(old(messages)@), m@),
{
    if try_merge_tool_result_into_previous(messages, &m) {
        return ;
    }
    let ghost before = messages@;
    messages.push(m);
    assert(msgs_view(messages@) =~= msgs_view(before).push(m@));
}

impl RolloutReader {
    pub fn new() -> (r: RolloutReader)
        ensures
            r@ == initial_rollout_state(),
    {
        let r = RolloutReader {
            messages: Vec::new(),
            session_id: String::new(),
            project_name: None,
            model: None,
            prev_input: 0,
            prev_output: 0,
            prev_cached: 0,
            counter: 0,
        };
        assert(msgs_view(r.messages@) =~= Seq::<MessageView>::empty());
        r
    }

    /// Takes one line of the rollout file into account.
    pub fn step(&mut self, line: &Option<JsonValue>)
        requires
            old(self).counter < u64::MAX,
        ensures
            final(self)@ == spec_rollout_step(old(self)@, opt_view(*line)),
            final(self).counter <= old(self).counter + 1,
    {
        let val = match line {
            Some(v) => v,
            None => {
                return ;
            },
        };
        let ts = match val.str_at("timestamp") {
            Some(t) => t,
            None => "",
        };
        let line_type = match val.str_at("type") {
            Some(t) => t,
            None => "",
        };
        let payload = match val.get("payload") {
            Some(p) => p,
            None => {
                return ;
            },
        };
        if str_eq(line_type, "session_meta") {
            self.session_id = match payload.str_at("id") {
                Some(id) => id.to_owned(),
                None => "unknown".to_owned(),
            };
            self.project_name = match payload.str_at("cwd") {
                Some(cwd) => Some(project_name_from_cwd(cwd)),
                None => None,
            };
        } else if str_eq(line_type, "turn_context") {
            match payload.str_at("model") {
                Some(m) => {
                    self.model = Some(m.to_owned());
                },
                None => {},
            }
        } else if str_eq(line_type, "response_item") {
            let converted = convert_codex_item(
                payload,
                self.session_id.as_str(),
                self.model.as_ref(),
                ts,
                &mut self.counter,
            );
            match converted {
                Some(m) => push_or_merge(&mut self.messages, m),
                None => {},
            }
        } else if str_eq(line_type, "event_msg") {
            let event_type = match payload.str_at("type") {
                Some(t) => t,
                None => "",
            };
            if str_eq(event_type, "user_message") || str_eq(event_type, "agent_message") {
                return ;
            }
            if str_eq(event_type, "token_count") {
                let totals = match extract_token_totals(payload) {
                    Some(t) => Some(t),
                    None => extract_last_token_usage(payload),
                };
                let (input, output, cached) = match totals {
                    Some(t) => t,
                    None => {
                        return ;
                    },
                };
                let (di, dout, dc) = if self.prev_input == 0 && self.prev_output == 0 {
                    (input, output, cached)
                } else {
                    (
                        sat_sub_exec(input, self.prev_input),
                        sat_sub_exec(output, self.prev_output),
                        sat_sub_exec(cached, self.prev_cached),
                    )
                };
                let usage = TokenUsage {
                    input_tokens: Some(sat_sub_exec(di, dc)),
                    output_tokens: Some(dout),
                    cache_creation_input_tokens: None,
                    cache_read_input_tokens: Some(dc),
                    service_tier: None,
                };
                apply_usage(&mut self.messages, usage);
                self.prev_input = input;
                self.prev_output = output;
                self.prev_cached = cached;
            } else {
                let converted = convert_codex_event(
                    payload,
                    self.session_id.as_str(),
                    ts,
                    &mut self.counter,
                );
                match converted {
                    Some(m) => {
                        let ghost before = self.messages@;
                        self.messages.push(m);
                        assert(msgs_view(self.messages@) =~= msgs_view(before).push(m@));
                    },
                    None => {},
                }
            }
        } else if str_eq(line_type, "compacted") {
            let m = convert_codex_compacted(payload, self.session_id.as_str(), ts, &mut self.counter);
            let ghost before = self.messages@;
            self.messages.push(m);
            assert(msgs_view(self.messages@) =~= msgs_view(before).push(m@));
        }
    }
}

/// The messages of a rollout file, given its lines as parsed.
pub fn messages_from_rollout(lines: &Vec<Option<JsonValue>>) -> (r: Vec<ClaudeMessage>)
    ensures
        msgs_view(r@) == spec_rollout_messages(lines_view(lines@)),
{
    let ghost lv = lines_view(lines@);
    let mut reader = RolloutReader::new();
    let mut i: usize = 0;
    assert(lv.take(0) =~= Seq::<Option<Json>>::empty());
    while i < lines.len()
        invariant
            i <= lines.len(),
            lv == lines_view(lines@),
            lv.len() == lines@.len(),
            reader.counter <= i,
            reader@ == spec_rollout_fold(lv.take(i as int)),
        decreases lines.len() - i,
    {
        assert(lv.take(i + 1).drop_last() =~= lv.take(i as int));
        assert(lv.take(i + 1).last() == opt_view(lines@[i as int]));
        reader.step(&lines[i]);
        i = i + 1;
    }
    assert(lv.take(lines.len() as int) =~= lv);
    let mut messages = reader.messages;
    match reader.project_name {
        Some(p) => {
            let ghost mv = msgs_view(messages@);
            let mut k: usize = 0;
            while k < messages.len()
                invariant
                    k <= messages.len(),
                    mv.len() == messages@.len(),
                    forall|j: int|
                        0 <= j < k ==> #[trigger] messages@[j]@ == (MessageView {
                            project_name: Some(p@),
                            ..mv[j]
                        }),
                    forall|j: int| k <= j < messages@.len() ==> #[trigger] messages@[j]@ == mv[j],
                decreases messages.len() - k,
            {
                let ghost old_v = messages@;
                set_project_name(&mut messages[k], &p);
                assert(messages@ == old_v.update(k as int, messages@[k as int]));
                k = k + 1;
            }
            assert(msgs_view(messages@) =~= mv.map_values(
                |m: MessageView| MessageView { project_name: Some(p@), ..m },
            ));
        },
        None => {},
    }
    messages
}

/// Reads the messages of a rollout file, given its lines.
pub fn load_messages(lines: &Vec<Vec<u8>>) -> (r: Vec<ClaudeMessage>)
    ensures
        msgs_view(r@) == spec_rollout_messages(
            lines@.map_values(|l: Vec<u8>| crate::json::simd_json_parsed(l@)),
        ),
{
    let mut parsed: Vec<Option<JsonValue>> = Vec::new();
    let mut i: usize = 0;
    while i < lines.len()
        invariant
            i <= lines.len(),
            parsed.len() == i,
            forall|j: int|
                0 <= j < i ==> opt_view(#[trigger] parsed@[j]) == crate::json::simd_json_parsed(
                    lines@[j]@,
                ),
        decreases lines.len() - i,
    {
        parsed.push(JsonValue::parse_line(lines[i].as_slice()));
        i = i + 1;
    }
    assert(lines_view(parsed@) =~= lines@.map_values(
        |l: Vec<u8>| crate::json::simd_json_parsed(l@),
    ));
    messages_from_rollout(&parsed)
}

} // verus!
