use vstd::prelude::*;

use crate::json::{Json, JsonNumber, JsonValue, NumberSpec, opt_view};

verus! {

pub open spec fn opt_str(o: Option<String>) -> Option<Seq<char>> {
    match o {
        Some(s) => Some(s@),
        None => None,
    }
}

pub open spec fn opt_number(o: Option<JsonNumber>) -> Option<NumberSpec> {
    match o {
        Some(n) => Some(n@),
        None => None,
    }
}

/// Token counts of one assistant turn.
pub struct TokenUsage {
    pub input_tokens: Option<u32>,
    pub output_tokens: Option<u32>,
    pub cache_creation_input_tokens: Option<u32>,
    pub cache_read_input_tokens: Option<u32>,
    pub service_tier: Option<String>,
}

pub struct UsageView {
    pub input_tokens: Option<u32>,
    pub output_tokens: Option<u32>,
    pub cache_creation_input_tokens: Option<u32>,
    pub cache_read_input_tokens: Option<u32>,
    pub service_tier: Option<Seq<char>>,
}

impl View for TokenUsage {
    type V = UsageView;

    open spec fn view(&self) -> UsageView {
        UsageView {
            input_tokens: self.input_tokens,
            output_tokens: self.output_tokens,
            cache_creation_input_tokens: self.cache_creation_input_tokens,
            cache_read_input_tokens: self.cache_read_input_tokens,
            service_tier: opt_str(self.service_tier),
        }
    }
}

pub open spec fn opt_usage(o: Option<TokenUsage>) -> Option<UsageView> {
    match o {
        Some(u) => Some(u@),
        None => None,
    }
}

/// One message of a conversation, as the viewer shows it.
pub struct ClaudeMessage {
    pub uuid: String,
    pub parent_uuid: Option<String>,
    pub session_id: String,
    pub timestamp: String,
    pub message_type: String,
    pub content: Option<JsonValue>,
    pub project_name: Option<String>,
    pub tool_use: Option<JsonValue>,
    pub tool_use_result: Option<JsonValue>,
    pub is_sidechain: Option<bool>,
    pub usage: Option<TokenUsage>,
    pub role: Option<String>,
    pub model: Option<String>,
    pub stop_reason: Option<String>,
    /// The cost in US dollars, kept as the JSON number it was read from.
    pub cost_usd: Option<JsonNumber>,
    pub duration_ms: Option<u64>,
    pub message_id: Option<String>,
    pub snapshot: Option<JsonValue>,
    pub is_snapshot_update: Option<bool>,
    pub data: Option<JsonValue>,
    pub tool_use_id: Option<String>,
    pub parent_tool_use_id: Option<String>,
    pub operation: Option<String>,
    pub subtype: Option<String>,
    pub level: Option<String>,
    pub hook_count: Option<u32>,
    pub hook_infos: Option<JsonValue>,
    pub stop_reason_system: Option<String>,
    pub prevented_continuation: Option<bool>,
    pub compact_metadata: Option<JsonValue>,
    pub microcompact_metadata: Option<JsonValue>,
    pub provider: Option<String>,
}

pub struct MessageView {
    pub uuid: Seq<char>,
    pub parent_uuid: Option<Seq<char>>,
    pub session_id: Seq<char>,
    pub timestamp: Seq<char>,
    pub message_type: Seq<char>,
    pub content: Option<Json>,
    pub project_name: Option<Seq<char>>,
    pub tool_use: Option<Json>,
    pub tool_use_result: Option<Json>,
    pub is_sidechain: Option<bool>,
    pub usage: Option<UsageView>,
    pub role: Option<Seq<char>>,
    pub model: Option<Seq<char>>,
    pub stop_reason: Option<Seq<char>>,
    pub cost_usd: Option<NumberSpec>,
    pub duration_ms: Option<u64>,
    pub message_id: Option<Seq<char>>,
    pub snapshot: Option<Json>,
    pub is_snapshot_update: Option<bool>,
    pub data: Option<Json>,
    pub tool_use_id: Option<Seq<char>>,
    pub parent_tool_use_id: Option<Seq<char>>,
    pub operation: Option<Seq<char>>,
    pub subtype: Option<Seq<char>>,
    pub level: Option<Seq<char>>,
    pub hook_count: Option<u32>,
    pub hook_infos: Option<Json>,
    pub stop_reason_system: Option<Seq<char>>,
    pub prevented_continuation: Option<bool>,
    pub compact_metadata: Option<Json>,
    pub microcompact_metadata: Option<Json>,
    pub provider: Option<Seq<char>>,
}

impl View for ClaudeMessage {
    type V = MessageView;

    open spec fn view(&self) -> MessageView {
        MessageView {
            uuid: self.uuid@,
            parent_uuid: opt_str(self.parent_uuid),
            session_id: self.session_id@,
            timestamp: self.timestamp@,
            message_type: self.message_type@,
            content: opt_view(self.content),
            project_name: opt_str(self.project_name),
            tool_use: opt_view(self.tool_use),
            tool_use_result: opt_view(self.tool_use_result),
            is_sidechain: self.is_sidechain,
            usage: opt_usage(self.usage),
            role: opt_str(self.role),
            model: opt_str(self.model),
            stop_reason: opt_str(self.stop_reason),
            cost_usd: opt_number(self.cost_usd),
            duration_ms: self.duration_ms,
            message_id: opt_str(self.message_id),
            snapshot: opt_view(self.snapshot),
            is_snapshot_update: self.is_snapshot_update,
            data: opt_view(self.data),
            tool_use_id: opt_str(self.tool_use_id),
            parent_tool_use_id: opt_str(self.parent_tool_use_id),
            operation: opt_str(self.operation),
            subtype: opt_str(self.subtype),
            level: opt_str(self.level),
            hook_count: self.hook_count,
            hook_infos: opt_view(self.hook_infos),
            stop_reason_system: opt_str(self.stop_reason_system),
            prevented_continuation: self.prevented_continuation,
            compact_metadata: opt_view(self.compact_metadata),
            microcompact_metadata: opt_view(self.microcompact_metadata),
            provider: opt_str(self.provider),
        }
    }
}

/// A message of `provider` with the given identity and body; every other field is empty.
pub open spec fn spec_provider_message(
    provider: Seq<char>,
    uuid: Seq<char>,
    session_id: Seq<char>,
    timestamp: Seq<char>,
    message_type: Seq<char>,
    role: Option<Seq<char>>,
    content: Option<Json>,
    model: Option<Seq<char>>,
) -> MessageView {
    MessageView {
        uuid,
        parent_uuid: None,
        session_id,
        timestamp,
        message_type,
        content,
        project_name: None,
        tool_use: None,
        tool_use_result: None,
        is_sidechain: None,
        usage: None,
        role,
        model,
        stop_reason: None,
        cost_usd: None,
        duration_ms: None,
        message_id: None,
        snapshot: None,
        is_snapshot_update: None,
        data: None,
        tool_use_id: None,
        parent_tool_use_id: None,
        operation: None,
        subtype: None,
        level: None,
        hook_count: None,
        hook_infos: None,
        stop_reason_system: None,
        prevented_continuation: None,
        compact_metadata: None,
        microcompact_metadata: None,
        provider: Some(provider),
    }
}

pub open spec fn opt_str_ref(o: Option<&str>) -> Option<Seq<char>> {
    match o {
        Some(s) => Some(s@),
        None => None,
    }
}

impl ClaudeMessage {
    /// A copy of the message.
    pub fn duplicate(&self) -> (r: ClaudeMessage)
        ensures
            r@ == self@,
    {
        ClaudeMessage {
            uuid: self.uuid.clone(),
            parent_uuid: copy_opt_string(&self.parent_uuid),
            session_id: self.session_id.clone(),
            timestamp: self.timestamp.clone(),
            message_type: self.message_type.clone(),
            content: crate::search::copy_json(&self.content),
            project_name: copy_opt_string(&self.project_name),
            tool_use: crate::search::copy_json(&self.tool_use),
            tool_use_result: crate::search::copy_json(&self.tool_use_result),
            is_sidechain: self.is_sidechain,
            usage: crate::search::copy_usage(&self.usage),
            role: copy_opt_string(&self.role),
            model: copy_opt_string(&self.model),
            stop_reason: copy_opt_string(&self.stop_reason),
            cost_usd: crate::search::copy_number(&self.cost_usd),
            duration_ms: self.duration_ms,
            message_id: copy_opt_string(&self.message_id),
            snapshot: crate::search::copy_json(&self.snapshot),
            is_snapshot_update: self.is_snapshot_update,
            data: crate::search::copy_json(&self.data),
            tool_use_id: copy_opt_string(&self.tool_use_id),
            parent_tool_use_id: copy_opt_string(&self.parent_tool_use_id),
            operation: copy_opt_string(&self.operation),
            subtype: copy_opt_string(&self.subtype),
            level: copy_opt_string(&self.level),
            hook_count: self.hook_count,
            hook_infos: crate::search::copy_json(&self.hook_infos),
            stop_reason_system: copy_opt_string(&self.stop_reason_system),
            prevented_continuation: self.prevented_continuation,
            compact_metadata: crate::search::copy_json(&self.compact_metadata),
            microcompact_metadata: crate::search::copy_json(&self.microcompact_metadata),
            provider: copy_opt_string(&self.provider),
        }
    }
}

/// Builds a message of `provider`; every field that is not an argument is empty.
pub fn build_provider_message(
    provider: &str,
    uuid: String,
    session_id: &str,
    timestamp: String,
    message_type: &str,
    role: Option<&str>,
    content: Option<JsonValue>,
    model: Option<String>,
) -> (r: ClaudeMessage)
    ensures
        r@ == spec_provider_message(
            provider@,
            uuid@,
            session_id@,
            timestamp@,
            message_type@,
            opt_str_ref(role),
            opt_view(content),
            opt_str(model),
        ),
{
    let role_owned: Option<String> = match role {
        Some(r) => Some(r.to_owned()),
        None => None,
    };
    ClaudeMessage {
        uuid,
        parent_uuid: None,
        session_id: session_id.to_owned(),
        timestamp,
        message_type: message_type.to_owned(),
        content,
        project_name: None,
        tool_use: None,
        tool_use_result: None,
        is_sidechain: None,
        usage: None,
        role: role_owned,
        model,
        stop_reason: None,
        cost_usd: None,
        duration_ms: None,
        message_id: None,
        snapshot: None,
        is_snapshot_update: None,
        data: None,
        tool_use_id: None,
        parent_tool_use_id: None,
        operation: None,
        subtype: None,
        level: None,
        hook_count: None,
        hook_infos: None,
        stop_reason_system: None,
        prevented_continuation: None,
        compact_metadata: None,
        microcompact_metadata: None,
        provider: Some(provider.to_owned()),
    }
}

/// A copy of an optional string.
pub fn copy_opt_string(o: &Option<String>) -> (r: Option<String>)
    ensures
        opt_str(r) == opt_str(*o),
{
    match o {
        Some(s) => Some(s.clone()),
        None => None,
    }
}

/// One conversation file, as the session list shows it.
pub struct ClaudeSession {
    pub session_id: String,
    pub actual_session_id: String,
    pub file_path: String,
    pub project_name: String,
    pub message_count: usize,
    pub first_message_time: String,
    pub last_message_time: String,
    pub last_modified: String,
    pub has_tool_use: bool,
    pub has_errors: bool,
    pub summary: Option<String>,
    pub is_renamed: bool,
    pub provider: Option<String>,
    pub storage_type: Option<String>,
    pub entrypoint: Option<String>,
}

pub struct SessionView {
    pub session_id: Seq<char>,
    pub actual_session_id: Seq<char>,
    pub file_path: Seq<char>,
    pub project_name: Seq<char>,
    pub message_count: usize,
    pub first_message_time: Seq<char>,
    pub last_message_time: Seq<char>,
    pub last_modified: Seq<char>,
    pub has_tool_use: bool,
    pub has_errors: bool,
    pub summary: Option<Seq<char>>,
    pub is_renamed: bool,
    pub provider: Option<Seq<char>>,
    pub storage_type: Option<Seq<char>>,
    pub entrypoint: Option<Seq<char>>,
}

impl View for ClaudeSession {
    type V = SessionView;

    open spec fn view(&self) -> SessionView {
        SessionView {
            session_id: self.session_id@,
            actual_session_id: self.actual_session_id@,
            file_path: self.file_path@,
            project_name: self.project_name@,
            message_count: self.message_count,
            first_message_time: self.first_message_time@,
            last_message_time: self.last_message_time@,
            last_modified: self.last_modified@,
            has_tool_use: self.has_tool_use,
            has_errors: self.has_errors,
            summary: opt_str(self.summary),
            is_renamed: self.is_renamed,
            provider: opt_str(self.provider),
            storage_type: opt_str(self.storage_type),
            entrypoint: opt_str(self.entrypoint),
        }
    }
}

impl ClaudeSession {
    /// A copy of the session.
    pub fn duplicate(&self) -> (r: ClaudeSession)
        ensures
            r@ == self@,
    {
        ClaudeSession {
            session_id: self.session_id.clone(),
            actual_session_id: self.actual_session_id.clone(),
            file_path: self.file_path.clone(),
            project_name: self.project_name.clone(),
            message_count: self.message_count,
            first_message_time: self.first_message_time.clone(),
            last_message_time: self.last_message_time.clone(),
            last_modified: self.last_modified.clone(),
            has_tool_use: self.has_tool_use,
            has_errors: self.has_errors,
            summary: copy_opt_string(&self.summary),
            is_renamed: self.is_renamed,
            provider: copy_opt_string(&self.provider),
            storage_type: copy_opt_string(&self.storage_type),
            entrypoint: copy_opt_string(&self.entrypoint),
        }
    }
}

/// One project (a working directory), as the project list shows it.
pub struct ClaudeProject {
    pub name: String,
    pub path: String,
    pub actual_path: String,
    pub session_count: usize,
    pub message_count: usize,
    pub last_modified: String,
    pub git_info: Option<JsonValue>,
    pub provider: Option<String>,
    pub storage_type: Option<String>,
    pub custom_directory_label: Option<String>,
}

pub struct ProjectView {
    pub name: Seq<char>,
    pub path: Seq<char>,
    pub actual_path: Seq<char>,
    pub session_count: usize,
    pub message_count: usize,
    pub last_modified: Seq<char>,
    pub git_info: Option<Json>,
    pub provider: Option<Seq<char>>,
    pub storage_type: Option<Seq<char>>,
    pub custom_directory_label: Option<Seq<char>>,
}

impl View for ClaudeProject {
    type V = ProjectView;

    open spec fn view(&self) -> ProjectView {
        ProjectView {
            name: self.name@,
            path: self.path@,
            actual_path: self.actual_path@,
            session_count: self.session_count,
            message_count: self.message_count,
            last_modified: self.last_modified@,
            git_info: opt_view(self.git_info),
            provider: opt_str(self.provider),
            storage_type: opt_str(self.storage_type),
            custom_directory_label: opt_str(self.custom_directory_label),
        }
    }
}

impl ClaudeProject {
    /// A copy of the project.
    pub fn duplicate(&self) -> (r: ClaudeProject)
        ensures
            r@ == self@,
    {
        ClaudeProject {
            name: self.name.clone(),
            path: self.path.clone(),
            actual_path: self.actual_path.clone(),
            session_count: self.session_count,
            message_count: self.message_count,
            last_modified: self.last_modified.clone(),
            git_info: match &self.git_info {
                Some(g) => Some(g.deep_clone()),
                None => None,
            },
            provider: copy_opt_string(&self.provider),
            storage_type: copy_opt_string(&self.storage_type),
            custom_directory_label: copy_opt_string(&self.custom_directory_label),
        }
    }
}

/// What the viewer knows of one installed assistant.
pub struct ProviderInfo {
    pub id: String,
    pub display_name: String,
    pub base_path: String,
    pub is_available: bool,
}

} // verus!
