use vstd::prelude::*;

use crate::codex::convert::{or_str, str_or};
use crate::json::{entries_view, group_json_view, items_view, Json, JsonValue};
use crate::json::JsonNumber;
use crate::models::{opt_str, ClaudeMessage, MessageView, TokenUsage};
use crate::text::{ascii_lower, ascii_lower_seq, contains, str_contains, str_eq};

verus! {

broadcast use group_json_view;

// ---------------------------------------------------------------------------
// The matcher (aho-corasick)
// ---------------------------------------------------------------------------

#[verifier::external_type_specification]
#[verifier::external_body]
pub struct ExAhoCorasick(aho_corasick::AhoCorasick);

/// Whether `AhoCorasick::builder().ascii_case_insensitive(true).build([p])`
/// succeeds for the pattern `p` (it fails only where the automaton's state or
/// pattern ids would overflow).
pub uninterp spec fn matcher_builds(pattern: Seq<char>) -> bool;

/// A case-insensitive (ASCII) matcher for one pattern.
pub struct Matcher {
    automaton: aho_corasick::AhoCorasick,
    pattern: String,
}

impl Matcher {
    /// The pattern the matcher looks for.
    pub closed spec fn pattern(&self) -> Seq<char> {
        self.pattern@
    }
}

/// A text matches a pattern where the pattern occurs in it, ASCII letters
/// compared without case.
pub open spec fn spec_is_match(pattern: Seq<char>, text: Seq<char>) -> bool {
    contains(ascii_lower_seq(text), ascii_lower_seq(pattern))
}

/// Builds the matcher with `AhoCorasick::builder().ascii_case_insensitive(true)
/// .build([query])`. The contract claims that a built matcher looks for
/// `query`, and names (without stating) the inputs on which the build fails.
#[verifier::external_body]
fn build_automaton(query: &str) -> (r: Option<Matcher>)
    ensures
        r is Some <==> matcher_builds(query@),
        r matches Some(m) ==> m.pattern() == query@,
{
    match aho_corasick::AhoCorasick::builder().ascii_case_insensitive(true).build([query]) {
        Ok(automaton) => Some(Matcher { automaton, pattern: query.to_owned() }),
        Err(_) => None,
    }
}

/// A case-insensitive (ASCII) matcher for `query`, where the automaton can be
/// built for it.
pub fn build_matcher(query: &str) -> (r: Option<Matcher>)
    ensures
        r is Some <==> matcher_builds(query@),
        r matches Some(m) ==> m.pattern() == query@,
{
    build_automaton(query)
}

/// Calls `AhoCorasick::is_match` on `text`. A `Matcher` is only made by
/// `build_matcher`, so its automaton was built from its pattern with ASCII case
/// insensitivity; the contract claims what the crate documents for that: a
/// match at any position, ASCII letters compared without case (the pattern's
/// bytes start and end on character boundaries of the text, so the byte match
/// is a character match).
#[verifier::external_body]
pub(crate) fn matcher_is_match(m: &Matcher, text: &str) -> (r: bool)
    ensures
        r == spec_is_match(m.pattern(), text@),
{
    m.automaton.is_match(text)
}

// ---------------------------------------------------------------------------
// Matching inside JSON content
// ---------------------------------------------------------------------------

/// Some string anywhere in the value matches.
pub open spec fn value_matches(v: Json, p: Seq<char>) -> bool
    decreases v,
{
    match v {
        Json::Str(s) => spec_is_match(p, s),
        Json::Array(a) => items_match(a, p),
        Json::Object(e) => entries_match(e, p),
        _ => false,
    }
}

pub open spec fn items_match(a: Seq<Json>, p: Seq<char>) -> bool
    decreases a,
{
    if a.len() == 0 {
        false
    } else {
        items_match(a.drop_last(), p) || value_matches(a.last(), p)
    }
}

pub open spec fn entries_match(e: Seq<(Seq<char>, Json)>, p: Seq<char>) -> bool
    decreases e,
{
    if e.len() == 0 {
        false
    } else {
        entries_match(e.drop_last(), p) || value_matches(e.last().1, p)
    }
}

/// Whether a string anywhere in `value` matches.
#[verifier::loop_isolation(false)]
pub fn search_in_value(value: &JsonValue, matcher: &Matcher) -> (r: bool)
    ensures
        r == value_matches(value@, matcher.pattern()),
    decreases value,
{
    match value {
        JsonValue::Str(s) => matcher_is_match(matcher, s.as_str()),
        JsonValue::Array(arr) => {
            let ghost iv = items_view(arr@);
            let mut i: usize = 0;
            assert(iv.take(0) =~= Seq::<Json>::empty());
            while i < arr.len()
                invariant
                    i <= arr.len(),
                    iv == items_view(arr@),
                    iv.len() == arr@.len(),
                    !items_match(iv.take(i as int), matcher.pattern()),
                decreases arr.len() - i,
            {
                assert(iv.take(i + 1).drop_last() =~= iv.take(i as int));
                assert(iv.take(i + 1).last() == arr@[i as int]@);
                assert(decreases_to!(value => arr@[i as int]));
                if search_in_value(&arr[i], matcher) {
                    proof {
                        lemma_items_match_prefix(iv, i + 1, matcher.pattern());
                    }
                    return true;
                }
                i = i + 1;
            }
            assert(iv.take(arr.len() as int) =~= iv);
            false
        },
        JsonValue::Object(obj) => {
            let ghost ev = entries_view(obj@);
            let mut i: usize = 0;
            assert(ev.take(0) =~= Seq::<(Seq<char>, Json)>::empty());
            while i < obj.len()
                invariant
                    i <= obj.len(),
                    ev == entries_view(obj@),
                    ev.len() == obj@.len(),
                    !entries_match(ev.take(i as int), matcher.pattern()),
                decreases obj.len() - i,
            {
                assert(ev.take(i + 1).drop_last() =~= ev.take(i as int));
                assert(ev.take(i + 1).last() == (obj@[i as int].0@, obj@[i as int].1@));
                assert(decreases_to!(value => obj@[i as int].1));
                if search_in_value(&obj[i].1, matcher) {
                    proof {
                        lemma_entries_match_prefix(ev, i + 1, matcher.pattern());
                    }
                    return true;
                }
                i = i + 1;
            }
            assert(ev.take(obj.len() as int) =~= ev);
            false
        },
        _ => false,
    }
}

/// A match in a prefix of the items is a match in the items.
pub proof fn lemma_items_match_prefix(a: Seq<Json>, n: int, p: Seq<char>)
    requires
        0 <= n <= a.len(),
        items_match(a.take(n), p),
    ensures
        items_match(a, p),
    decreases a.len() - n,
{
    if n < a.len() {
        assert(a.take(n + 1).drop_last() =~= a.take(n));
        lemma_items_match_prefix(a, n + 1, p);
    } else {
        assert(a.take(n) =~= a);
    }
}

pub proof fn lemma_entries_match_prefix(e: Seq<(Seq<char>, Json)>, n: int, p: Seq<char>)
    requires
        0 <= n <= e.len(),
        entries_match(e.take(n), p),
    ensures
        entries_match(e, p),
    decreases e.len() - n,
{
    if n < e.len() {
        assert(e.take(n + 1).drop_last() =~= e.take(n));
        lemma_entries_match_prefix(e, n + 1, p);
    } else {
        assert(e.take(n) =~= e);
    }
}

/// Which parts of a message a search looks at.
#[derive(Clone, Copy, Debug, PartialEq, Eq, Structural)]
pub enum SearchScope {
    Text,
    TextThinking,
    TextTools,
    TextToolResults,
    All,
}

/// The string member `key` of an object matches.
pub open spec fn named_match(e: Seq<(Seq<char>, Json)>, key: Seq<char>, p: Seq<char>) -> bool {
    match Json::Object(e).str_at(key) {
        Some(s) => spec_is_match(p, s),
        None => false,
    }
}

pub open spec fn is_tool_call_block(t: Seq<char>) -> bool {
    t == "tool_use"@ || t == "server_tool_use"@ || t == "mcp_tool_use"@
}

pub open spec fn is_tool_result_block(t: Seq<char>) -> bool {
    contains(t, "tool_result"@) || contains(t, "code_execution"@)
}

/// A content block matches the scope: its text; for thinking, its thinking,
/// reasoning or summary; for tool calls or tool results, anything in a block
/// of that kind.
pub open spec fn object_scope_match(e: Seq<(Seq<char>, Json)>, p: Seq<char>, scope: SearchScope) -> bool {
    let item_type = or_str(Json::Object(e).str_at("type"@), ""@);
    ||| named_match(e, "text"@, p)
    ||| (scope == SearchScope::TextThinking && (named_match(e, "thinking"@, p) || named_match(
        e,
        "reasoning"@,
        p,
    ) || named_match(e, "summary"@, p)))
    ||| (scope == SearchScope::TextTools && is_tool_call_block(item_type) && entries_match(e, p))
    ||| (scope == SearchScope::TextToolResults && is_tool_result_block(item_type) && entries_match(
        e,
        p,
    ))
}

/// Message content matches the scope: any string for `All`; else a string
/// content, an array with a matching item, or a matching block.
pub open spec fn scope_matches(v: Json, p: Seq<char>, scope: SearchScope) -> bool
    decreases v,
{
    if scope == SearchScope::All {
        value_matches(v, p)
    } else {
        match v {
            Json::Str(s) => spec_is_match(p, s),
            Json::Array(a) => items_scope_match(a, p, scope),
            Json::Object(e) => object_scope_match(e, p, scope),
            _ => false,
        }
    }
}

pub open spec fn items_scope_match(a: Seq<Json>, p: Seq<char>, scope: SearchScope) -> bool
    decreases a,
{
    if a.len() == 0 {
        false
    } else {
        items_scope_match(a.drop_last(), p, scope) || scope_matches(a.last(), p, scope)
    }
}

pub proof fn lemma_items_scope_prefix(a: Seq<Json>, n: int, p: Seq<char>, scope: SearchScope)
    requires
        0 <= n <= a.len(),
        items_scope_match(a.take(n), p, scope),
    ensures
        items_scope_match(a, p, scope),
    decreases a.len() - n,
{
    if n < a.len() {
        assert(a.take(n + 1).drop_last() =~= a.take(n));
        lemma_items_scope_prefix(a, n + 1, p, scope);
    } else {
        assert(a.take(n) =~= a);
    }
}

fn search_named_string(obj: &JsonValue, key: &str, matcher: &Matcher) -> (r: bool)
    requires
        obj is Object,
    ensures
        r == named_match(obj@->Object_0, key@, matcher.pattern()),
{
    match obj.str_at(key) {
        Some(s) => matcher_is_match(matcher, s),
        None => false,
    }
}

fn is_str_in(t: &str, a: &str, b: &str, c: &str) -> (r: bool)
    ensures
        r == (t@ == a@ || t@ == b@ || t@ == c@),
{
    str_eq(t, a) || str_eq(t, b) || str_eq(t, c)
}

fn object_matches_scope(obj: &JsonValue, matcher: &Matcher, scope: SearchScope) -> (r: bool)
    requires
        obj is Object,
    ensures
        r == object_scope_match(obj@->Object_0, matcher.pattern(), scope),
{
    let item_type = str_or(obj.str_at("type"), "");
    let text_match = search_named_string(obj, "text", matcher);
    let thinking_match = scope == SearchScope::TextThinking && (search_named_string(
        obj,
        "thinking",
        matcher,
    ) || search_named_string(obj, "reasoning", matcher) || search_named_string(
        obj,
        "summary",
        matcher,
    ));
    let tool_call_match = scope == SearchScope::TextTools && is_str_in(
        item_type,
        "tool_use",
        "server_tool_use",
        "mcp_tool_use",
    ) && search_in_value(obj, matcher);
    let tool_result_match = scope == SearchScope::TextToolResults && (str_contains(
        item_type,
        "tool_result",
    ) || str_contains(item_type, "code_execution")) && search_in_value(obj, matcher);
    text_match || thinking_match || tool_call_match || tool_result_match
}

/// Whether message content matches the query in the scope.
#[verifier::loop_isolation(false)]
pub fn content_matches_scope(value: &JsonValue, matcher: &Matcher, scope: SearchScope) -> (r: bool)
    ensures
        r == scope_matches(value@, matcher.pattern(), scope),
    decreases value,
{
    if scope == SearchScope::All {
        return search_in_value(value, matcher);
    }
    match value {
        JsonValue::Str(s) => matcher_is_match(matcher, s.as_str()),
        JsonValue::Array(arr) => {
            let ghost iv = items_view(arr@);
            let mut i: usize = 0;
            assert(iv.take(0) =~= Seq::<Json>::empty());
            while i < arr.len()
                invariant
                    i <= arr.len(),
                    iv == items_view(arr@),
                    iv.len() == arr@.len(),
                    scope != SearchScope::All,
                    !items_scope_match(iv.take(i as int), matcher.pattern(), scope),
                decreases arr.len() - i,
            {
                assert(iv.take(i + 1).drop_last() =~= iv.take(i as int));
                assert(iv.take(i + 1).last() == arr@[i as int]@);
                assert(decreases_to!(value => arr@[i as int]));
                if content_matches_scope(&arr[i], matcher, scope) {
                    proof {
                        lemma_items_scope_prefix(iv, i + 1, matcher.pattern(), scope);
                    }
                    return true;
                }
                i = i + 1;
            }
            assert(iv.take(arr.len() as int) =~= iv);
            false
        },
        JsonValue::Object(_) => object_matches_scope(value, matcher, scope),
        _ => false,
    }
}

/// The scope a search's filters ask for (`All` where they name none or an
/// unknown one).
pub open spec fn spec_parse_search_scope(filters: Json) -> SearchScope {
    match filters.str_at("searchScope"@) {
        Some(s) => if s == "text"@ {
            SearchScope::Text
        } else if s == "textThinking"@ {
            SearchScope::TextThinking
        } else if s == "textTools"@ {
            SearchScope::TextTools
        } else if s == "textToolResults"@ {
            SearchScope::TextToolResults
        } else {
            SearchScope::All
        },
        None => SearchScope::All,
    }
}

pub fn parse_search_scope(filters: &JsonValue) -> (r: SearchScope)
    ensures
        r == spec_parse_search_scope(filters@),
{
    match filters.str_at("searchScope") {
        Some(s) => if str_eq(s, "text") {
            SearchScope::Text
        } else if str_eq(s, "textThinking") {
            SearchScope::TextThinking
        } else if str_eq(s, "textTools") {
            SearchScope::TextTools
        } else if str_eq(s, "textToolResults") {
            SearchScope::TextToolResults
        } else {
            SearchScope::All
        },
        None => SearchScope::All,
    }
}

// ---------------------------------------------------------------------------
// Dates
// ---------------------------------------------------------------------------

/// The instant (seconds and nanoseconds since the epoch, in UTC) that
/// `chrono::DateTime::parse_from_rfc3339` reads from `text`, or nothing where
/// it reports an error.
pub uninterp spec fn rfc3339_instant(text: Seq<char>) -> Option<(i64, u32)>;

/// Calls `chrono::DateTime::parse_from_rfc3339` and converts the result to
/// UTC. The contract claims only that the result is the instant that parser
/// reads (named above), or nothing where it reports an error.
#[verifier::external_body]
pub(crate) fn parse_rfc3339_utc(text: &str) -> (r: Option<(i64, u32)>)
    ensures
        r == rfc3339_instant(text@),
{
    match chrono::DateTime::parse_from_rfc3339(text) {
        Ok(dt) => {
            let utc = dt.with_timezone(&chrono::Utc);
            Some((utc.timestamp(), utc.timestamp_subsec_nanos()))
        },
        Err(_) => None,
    }
}

/// The date of a filter value: a string in RFC 3339.
pub open spec fn spec_filter_date(v: Json) -> Option<(i64, u32)> {
    match v.as_str() {
        Some(s) => rfc3339_instant(s),
        None => None,
    }
}

pub fn parse_filter_date(value: &JsonValue) -> (r: Option<(i64, u32)>)
    ensures
        r == spec_filter_date(value@),
{
    match value.as_str() {
        Some(s) => parse_rfc3339_utc(s),
        None => None,
    }
}

/// A filter value as it is quoted in an error: a string as it is, anything
/// else as JSON text.
pub open spec fn spec_filter_value_text(v: Json) -> Seq<char> {
    match v.as_str() {
        Some(s) => s,
        None => crate::json::json_text(v),
    }
}

pub fn filter_value_to_string(value: &JsonValue) -> (r: String)
    ensures
        r@ == spec_filter_value_text(value@),
{
    match value.as_str() {
        Some(s) => s.to_owned(),
        None => value.to_json_text(),
    }
}

pub fn instant_after(a: (i64, u32), b: (i64, u32)) -> (r: bool)
    ensures
        r == (crate::sort::instant_order(a, b) > 0),
{
    a.0 > b.0 || (a.0 == b.0 && a.1 > b.1)
}

// ---------------------------------------------------------------------------
// Validating search filters
// ---------------------------------------------------------------------------

pub open spec fn is_scope_name(s: Seq<char>) -> bool {
    s == "text"@ || s == "textThinking"@ || s == "textTools"@ || s == "textToolResults"@ || s
        == "all"@
}

/// The error of the date range, where it is one: not two items, an item that
/// is no RFC 3339 date, or a start after the end.
pub open spec fn spec_date_range_error(dr: Seq<Json>) -> Option<Seq<char>> {
    if dr.len() != 2 {
        Some(
            "Invalid dateRange filter: expected [start, end], got "@ + crate::text::decimal(
                dr.len(),
            ) + " item(s)"@,
        )
    } else {
        let start_raw = spec_filter_value_text(dr[0]);
        let end_raw = spec_filter_value_text(dr[1]);
        match (spec_filter_date(dr[0]), spec_filter_date(dr[1])) {
            (None, _) => Some(
                "Invalid dateRange start: "@ + start_raw + " (expected RFC3339 datetime)"@,
            ),
            (Some(_), None) => Some(
                "Invalid dateRange end: "@ + end_raw + " (expected RFC3339 datetime)"@,
            ),
            (Some(a), Some(b)) => if crate::sort::instant_order(a, b) > 0 {
                Some(
                    "Invalid dateRange filter: start ("@ + start_raw + ") is after end ("@
                        + end_raw + ")"@,
                )
            } else {
                None
            },
        }
    }
}

/// The error of a search's filters, where they have one: an unknown search
/// scope, or a bad date range; filters that are no object have none.
pub open spec fn spec_filters_error(f: Json) -> Option<Seq<char>> {
    if !f.is_object() {
        None
    } else {
        match f.str_at("searchScope"@) {
            Some(sc) if !is_scope_name(sc) => Some(
                "Invalid searchScope filter: "@ + sc
                    + " (expected text, textThinking, textTools, textToolResults, or all)"@,
            ),
            _ => match f.get("dateRange"@) {
                Some(Json::Array(dr)) => spec_date_range_error(dr),
                _ => None,
            },
        }
    }
}

fn concat3(a: &str, b: &str, c: &str) -> (r: String)
    ensures
        r@ == a@ + b@ + c@,
{
    let mut v: Vec<char> = Vec::new();
    crate::text::push_str(&mut v, a);
    crate::text::push_str(&mut v, b);
    crate::text::push_str(&mut v, c);
    crate::text::string_from_chars(&v)
}

/// Checks a search's filters.
pub fn validate_search_filters(filters: &JsonValue) -> (r: Result<(), String>)
    ensures
        match spec_filters_error(filters@) {
            Some(m) => r matches Err(e) && e@ == m,
            None => r is Ok,
        },
{
    if !filters.is_object() {
        return Ok(());
    }
    match filters.str_at("searchScope") {
        Some(sc) => {
            if !(str_eq(sc, "text") || str_eq(sc, "textThinking") || str_eq(sc, "textTools")
                || str_eq(sc, "textToolResults") || str_eq(sc, "all")) {
                return Err(
                    concat3(
                        "Invalid searchScope filter: ",
                        sc,
                        " (expected text, textThinking, textTools, textToolResults, or all)",
                    ),
                );
            }
        },
        None => {},
    }
    let dr = match filters.get("dateRange") {
        Some(JsonValue::Array(a)) => a,
        _ => {
            return Ok(());
        },
    };
    assert(filters@.get("dateRange"@) == Some(Json::Array(items_view(dr@))));
    if dr.len() != 2 {
        let mut v: Vec<char> = Vec::new();
        crate::text::push_str(&mut v, "Invalid dateRange filter: expected [start, end], got ");
        crate::text::push_decimal(&mut v, dr.len() as u64);
        crate::text::push_str(&mut v, " item(s)");
        return Err(crate::text::string_from_chars(&v));
    }
    let start_raw = filter_value_to_string(&dr[0]);
    let end_raw = filter_value_to_string(&dr[1]);
    let start_at = match parse_filter_date(&dr[0]) {
        Some(d) => d,
        None => {
            return Err(
                concat3(
                    "Invalid dateRange start: ",
                    start_raw.as_str(),
                    " (expected RFC3339 datetime)",
                ),
            );
        },
    };
    let end_at = match parse_filter_date(&dr[1]) {
        Some(d) => d,
        None => {
            return Err(
                concat3("Invalid dateRange end: ", end_raw.as_str(), " (expected RFC3339 datetime)"),
            );
        },
    };
    if instant_after(start_at, end_at) {
        let mut v: Vec<char> = Vec::new();
        crate::text::push_str(&mut v, "Invalid dateRange filter: start (");
        crate::text::push_str(&mut v, start_raw.as_str());
        crate::text::push_str(&mut v, ") is after end (");
        crate::text::push_str(&mut v, end_raw.as_str());
        crate::text::push_str(&mut v, ")");
        return Err(crate::text::string_from_chars(&v));
    }
    Ok(())
}

// ---------------------------------------------------------------------------
// What a message holds
// ---------------------------------------------------------------------------

/// Some item of the array has the type `t1` or `t2`.
pub open spec fn any_item_typed(a: Seq<Json>, t1: Seq<char>, t2: Seq<char>) -> bool
    decreases a.len(),
{
    if a.len() == 0 {
        false
    } else {
        any_item_typed(a.drop_last(), t1, t2) || a.last().str_at("type"@) == Some(t1)
            || a.last().str_at("type"@) == Some(t2)
    }
}

pub open spec fn is_file_tool(n: Seq<char>) -> bool {
    n == "Write"@ || n == "Edit"@ || n == "MultiEdit"@ || n == "NotebookEdit"@
}

/// Some item of the array is a `tool_use` of a tool that changes files.
pub open spec fn any_file_change(a: Seq<Json>) -> bool
    decreases a.len(),
{
    if a.len() == 0 {
        false
    } else {
        any_file_change(a.drop_last()) || (a.last().str_at("type"@) == Some("tool_use"@) && match a.last().str_at("name"@) {
            Some(n) => is_file_tool(n),
            None => false,
        })
    }
}

pub open spec fn content_items(m: MessageView) -> Option<Seq<Json>> {
    match m.content {
        Some(c) => c.as_array(),
        None => None,
    }
}

/// A message with a tool call: a tool use or tool result of its own, or one
/// among its content blocks.
pub open spec fn spec_has_tool_calls(m: MessageView) -> bool {
    m.tool_use is Some || m.tool_use_result is Some || match content_items(m) {
        Some(a) => any_item_typed(a, "tool_use"@, "tool_result"@),
        None => false,
    }
}

/// A message with an error: of type "error", of level "error", or with
/// "error" (any case) in its system stop reason or anywhere in its content.
pub open spec fn spec_has_errors(m: MessageView) -> bool {
    m.message_type == "error"@ || m.level == Some("error"@) || (match m.stop_reason_system {
        Some(s) => spec_is_match("error"@, s),
        None => false,
    }) || (match m.content {
        Some(c) => value_matches(c, "error"@),
        None => false,
    })
}

/// A message that changes files: a content block that uses Write, Edit,
/// MultiEdit or NotebookEdit.
pub open spec fn spec_has_file_changes(m: MessageView) -> bool {
    match content_items(m) {
        Some(a) => any_file_change(a),
        None => false,
    }
}

fn items_typed(a: &Vec<JsonValue>, t1: &str, t2: &str) -> (r: bool)
    ensures
        r == any_item_typed(items_view(a@), t1@, t2@),
{
    let ghost iv = items_view(a@);
    let mut i: usize = 0;
    assert(iv.take(0) =~= Seq::<Json>::empty());
    while i < a.len()
        invariant
            i <= a.len(),
            iv == items_view(a@),
            iv.len() == a@.len(),
            !any_item_typed(iv.take(i as int), t1@, t2@),
        decreases a.len() - i,
    {
        assert(iv.take(i + 1).drop_last() =~= iv.take(i as int));
        assert(iv.take(i + 1).last() == a@[i as int]@);
        let t = a[i].str_at("type");
        if crate::codex::convert::is_str_eq(t, t1) || crate::codex::convert::is_str_eq(t, t2) {
            proof {
                lemma_any_typed_prefix(iv, i + 1, t1@, t2@);
            }
            return true;
        }
        i = i + 1;
    }
    assert(iv.take(a.len() as int) =~= iv);
    false
}

proof fn lemma_any_typed_prefix(a: Seq<Json>, n: int, t1: Seq<char>, t2: Seq<char>)
    requires
        0 <= n <= a.len(),
        any_item_typed(a.take(n), t1, t2),
    ensures
        any_item_typed(a, t1, t2),
    decreases a.len() - n,
{
    if n < a.len() {
        assert(a.take(n + 1).drop_last() =~= a.take(n));
        lemma_any_typed_prefix(a, n + 1, t1, t2);
    } else {
        assert(a.take(n) =~= a);
    }
}

proof fn lemma_file_change_prefix(a: Seq<Json>, n: int)
    requires
        0 <= n <= a.len(),
        any_file_change(a.take(n)),
    ensures
        any_file_change(a),
    decreases a.len() - n,
{
    if n < a.len() {
        assert(a.take(n + 1).drop_last() =~= a.take(n));
        lemma_file_change_prefix(a, n + 1);
    } else {
        assert(a.take(n) =~= a);
    }
}

pub fn has_tool_calls(message: &ClaudeMessage) -> (r: bool)
    ensures
        r == spec_has_tool_calls(message@),
{
    if message.tool_use.is_some() || message.tool_use_result.is_some() {
        return true;
    }
    match &message.content {
        Some(c) => match c.as_array() {
            Some(a) => items_typed(a, "tool_use", "tool_result"),
            None => false,
        },
        None => false,
    }
}

/// Whether the message shows an error; `error_matcher` looks for "error".
pub fn has_errors(message: &ClaudeMessage, error_matcher: &Matcher) -> (r: bool)
    requires
        error_matcher.pattern() == "error"@,
    ensures
        r == spec_has_errors(message@),
{
    if str_eq(message.message_type.as_str(), "error") {
        return true;
    }
    match &message.level {
        Some(l) => {
            if str_eq(l.as_str(), "error") {
                return true;
            }
        },
        None => {},
    }
    let in_stop = match &message.stop_reason_system {
        Some(s) => matcher_is_match(error_matcher, s.as_str()),
        None => false,
    };
    if in_stop {
        return true;
    }
    match &message.content {
        Some(v) => search_in_value(v, error_matcher),
        None => false,
    }
}

pub fn has_file_changes(message: &ClaudeMessage) -> (r: bool)
    ensures
        r == spec_has_file_changes(message@),
{
    let a = match &message.content {
        Some(c) => match c.as_array() {
            Some(a) => a,
            None => {
                return false;
            },
        },
        None => {
            return false;
        },
    };
    let ghost iv = items_view(a@);
    let mut i: usize = 0;
    assert(iv.take(0) =~= Seq::<Json>::empty());
    while i < a.len()
        invariant
            i <= a.len(),
            iv == items_view(a@),
            iv.len() == a@.len(),
            content_items(message@) == Some(iv),
            !any_file_change(iv.take(i as int)),
        decreases a.len() - i,
    {
        assert(iv.take(i + 1).drop_last() =~= iv.take(i as int));
        assert(iv.take(i + 1).last() == a@[i as int]@);
        if crate::codex::convert::is_str_eq(a[i].str_at("type"), "tool_use") {
            let hit = match a[i].str_at("name") {
                Some(n) => str_eq(n, "Write") || str_eq(n, "Edit") || str_eq(n, "MultiEdit")
                    || str_eq(n, "NotebookEdit"),
                None => false,
            };
            if hit {
                proof {
                    lemma_file_change_prefix(iv, i + 1);
                }
                return true;
            }
        }
        i = i + 1;
    }
    assert(iv.take(a.len() as int) =~= iv);
    false
}

// ---------------------------------------------------------------------------
// Filtering search results
// ---------------------------------------------------------------------------

/// The strings among the items, in order.
pub open spec fn strings_of(a: Seq<Json>) -> Seq<Seq<char>>
    decreases a.len(),
{
    if a.len() == 0 {
        Seq::empty()
    } else {
        match a.last().as_str() {
            Some(s) => strings_of(a.drop_last()).push(s),
            None => strings_of(a.drop_last()),
        }
    }
}

pub open spec fn bool_filter_ok(f: Json, key: Seq<char>, actual: bool) -> bool {
    match f.get(key) {
        Some(v) => match v.as_bool() {
            Some(b) => b == actual,
            None => true,
        },
        None => true,
    }
}

/// A message passes the filters: the message type (unless "all"), the
/// selected projects (where any string is selected), the tool-call, error
/// and file-change flags, and a two-item date range (an item that is no date
/// lets nothing pass; a message time that is no date does not pass). Filters
/// that are no object let everything pass.
pub open spec fn spec_matches_filters(m: MessageView, f: Json) -> bool {
    if !f.is_object() {
        true
    } else {
        let type_ok = match f.str_at("messageType"@) {
            Some(t) => t == "all"@ || m.message_type == t,
            None => true,
        };
        let projects_ok = match f.get("projects"@) {
            Some(Json::Array(ps)) => {
                let selected = strings_of(ps);
                selected.len() == 0 || match m.project_name {
                    Some(p) => selected.contains(p),
                    None => false,
                }
            },
            _ => true,
        };
        let date_ok = match f.get("dateRange"@) {
            Some(Json::Array(dr)) => if dr.len() == 2 {
                match (spec_filter_date(dr[0]), spec_filter_date(dr[1])) {
                    (Some(a), Some(b)) => match rfc3339_instant(m.timestamp) {
                        Some(ts) => crate::sort::instant_order(ts, a) >= 0
                            && crate::sort::instant_order(ts, b) <= 0,
                        None => false,
                    },
                    _ => false,
                }
            } else {
                true
            },
            _ => true,
        };
        &&& type_ok
        &&& projects_ok
        &&& bool_filter_ok(f, "hasToolCalls"@, spec_has_tool_calls(m))
        &&& bool_filter_ok(f, "hasErrors"@, spec_has_errors(m))
        &&& bool_filter_ok(f, "hasFileChanges"@, spec_has_file_changes(m))
        &&& date_ok
    }
}

fn selected_contains(ps: &Vec<JsonValue>, name: &str) -> (r: (bool, bool))
    ensures
        r.0 == (strings_of(items_view(ps@)).len() > 0),
        r.1 == strings_of(items_view(ps@)).contains(name@),
{
    let ghost iv = items_view(ps@);
    let mut any = false;
    let mut found = false;
    let mut i: usize = 0;
    assert(iv.take(0) =~= Seq::<Json>::empty());
    while i < ps.len()
        invariant
            i <= ps.len(),
            iv == items_view(ps@),
            iv.len() == ps@.len(),
            any == (strings_of(iv.take(i as int)).len() > 0),
            found == strings_of(iv.take(i as int)).contains(name@),
        decreases ps.len() - i,
    {
        assert(iv.take(i + 1).drop_last() =~= iv.take(i as int));
        assert(iv.take(i + 1).last() == ps@[i as int]@);
        let ghost before = strings_of(iv.take(i as int));
        match ps[i].as_str() {
            Some(s) => {
                any = true;
                if str_eq(s, name) {
                    found = true;
                }
                assert(strings_of(iv.take(i + 1)) == before.push(s@));
                assert(before.push(s@)[before.len() as int] == s@);
                assert(found == before.push(s@).contains(name@)) by {
                    if before.push(s@).contains(name@) && !before.contains(name@) {
                        let k = choose|k: int| 0 <= k < before.push(s@).len() && before.push(s@)[k] == name@;
                        if k < before.len() {
                            assert(before[k] == name@);
                        }
                    }
                    if before.contains(name@) {
                        let k = choose|k: int| 0 <= k < before.len() && before[k] == name@;
                        assert(before.push(s@)[k] == name@);
                    }
                }
            },
            None => {},
        }
        i = i + 1;
    }
    assert(iv.take(ps.len() as int) =~= iv);
    (any, found)
}

fn bool_ok(filters: &JsonValue, key: &str, actual: bool) -> (r: bool)
    ensures
        r == bool_filter_ok(filters@, key@, actual),
{
    match filters.get(key) {
        Some(v) => match v.as_bool() {
            Some(b) => b == actual,
            None => true,
        },
        None => true,
    }
}

/// Whether a message passes a search's filters; `error_matcher` looks for
/// "error".
pub fn matches_filters(message: &ClaudeMessage, filters: &JsonValue, error_matcher: &Matcher) -> (r:
    bool)
    requires
        error_matcher.pattern() == "error"@,
    ensures
        r == spec_matches_filters(message@, filters@),
{
    if !filters.is_object() {
        return true;
    }
    match filters.str_at("messageType") {
        Some(t) => {
            if !str_eq(t, "all") && !str_eq(message.message_type.as_str(), t) {
                return false;
            }
        },
        None => {},
    }
    match filters.get("projects") {
        Some(JsonValue::Array(ps)) => {
            let name: &str = match &message.project_name {
                Some(p) => p.as_str(),
                None => "",
            };
            let (any, found) = selected_contains(ps, name);
            if any {
                if message.project_name.is_none() || !found {
                    return false;
                }
            }
        },
        _ => {},
    }
    if !bool_ok(filters, "hasToolCalls", has_tool_calls(message)) {
        return false;
    }
    if !bool_ok(filters, "hasErrors", has_errors(message, error_matcher)) {
        return false;
    }
    if !bool_ok(filters, "hasFileChanges", has_file_changes(message)) {
        return false;
    }
    match filters.get("dateRange") {
        Some(JsonValue::Array(dr)) => {
            if dr.len() == 2 {
                assert(items_view(dr@)[0] == dr@[0]@);
                assert(items_view(dr@)[1] == dr@[1]@);
                let start = parse_filter_date(&dr[0]);
                let end = parse_filter_date(&dr[1]);
                match (start, end) {
                    (Some(a), Some(b)) => {
                        match parse_rfc3339_utc(message.timestamp.as_str()) {
                            Some(ts) => {
                                if instant_after(a, ts) || instant_after(ts, b) {
                                    proof {
                                        crate::sort::lemma_key_order_antisym(
                                            crate::sort::KeyView { instant: Some(a), text: Seq::empty() },
                                            crate::sort::KeyView { instant: Some(ts), text: Seq::empty() },
                                        );
                                    }
                                    return false;
                                }
                            },
                            None => {
                                return false;
                            },
                        }
                    },
                    _ => {
                        return false;
                    },
                }
            }
        },
        _ => {},
    }
    true
}

pub open spec fn msgs_view(v: Seq<ClaudeMessage>) -> Seq<MessageView> {
    v.map_values(|m: ClaudeMessage| m@)
}

/// The messages that pass the filters, in their order.
pub open spec fn spec_apply_filters(ms: Seq<MessageView>, f: Json) -> Seq<MessageView>
    decreases ms.len(),
{
    if ms.len() == 0 {
        Seq::empty()
    } else {
        let rest = spec_apply_filters(ms.drop_last(), f);
        if spec_matches_filters(ms.last(), f) {
            rest.push(ms.last())
        } else {
            rest
        }
    }
}

/// The messages that pass the filters and whose content matches the query
/// in the scope, in their order.
pub open spec fn spec_apply_filters_in_scope(
    ms: Seq<MessageView>,
    f: Json,
    p: Seq<char>,
    scope: SearchScope,
) -> Seq<MessageView>
    decreases ms.len(),
{
    if ms.len() == 0 {
        Seq::empty()
    } else {
        let rest = spec_apply_filters_in_scope(ms.drop_last(), f, p, scope);
        if spec_matches_filters(ms.last(), f) && match ms.last().content {
            Some(c) => scope_matches(c, p, scope),
            None => false,
        } {
            rest.push(ms.last())
        } else {
            rest
        }
    }
}

/// Keeps the items at the increasing positions `keep`.
fn keep_positions<T>(items: Vec<T>, keep: &Vec<usize>) -> (r: Vec<T>)
    requires
        forall|a: int| 0 <= a < keep.len() ==> #[trigger] keep@[a] < items.len(),
        forall|a: int, b: int| 0 <= a < b < keep.len() ==> keep@[a] < keep@[b],
    ensures
        r@ == crate::sort::reorder(items@, keep@),
{
    let ghost it = items@;
    let r = crate::sort::pick_in_order(items, keep);
    assert(r@ =~= crate::sort::reorder(it, keep@));
    r
}

/// The messages that pass a search's filters; `error_matcher` looks for
/// "error".
pub fn apply_search_filters(
    messages: Vec<ClaudeMessage>,
    filters: &JsonValue,
    error_matcher: &Matcher,
) -> (r: Vec<ClaudeMessage>)
    requires
        error_matcher.pattern() == "error"@,
    ensures
        msgs_view(r@) == spec_apply_filters(msgs_view(messages@), filters@),
{
    let ghost mv = msgs_view(messages@);
    let mut keep: Vec<usize> = Vec::new();
    let mut i: usize = 0;
    assert(mv.take(0) =~= Seq::<MessageView>::empty());
    assert(msgs_view(crate::sort::reorder(messages@, keep@)) =~= Seq::<MessageView>::empty());
    while i < messages.len()
        invariant
            i <= messages.len(),
            mv == msgs_view(messages@),
            mv.len() == messages@.len(),
            error_matcher.pattern() == "error"@,
            forall|a: int| 0 <= a < keep.len() ==> #[trigger] keep@[a] < i,
            forall|a: int, b: int| 0 <= a < b < keep.len() ==> keep@[a] < keep@[b],
            msgs_view(crate::sort::reorder(messages@, keep@)) == spec_apply_filters(
                mv.take(i as int),
                filters@,
            ),
        decreases messages.len() - i,
    {
        assert(mv.take(i + 1).drop_last() =~= mv.take(i as int));
        assert(mv.take(i + 1).last() == messages@[i as int]@);
        if matches_filters(&messages[i], filters, error_matcher) {
            let ghost before = keep@;
            keep.push(i);
            assert(msgs_view(crate::sort::reorder(messages@, keep@)) =~= msgs_view(
                crate::sort::reorder(messages@, before),
            ).push(messages@[i as int]@));
        }
        i = i + 1;
    }
    assert(mv.take(messages.len() as int) =~= mv);
    let ghost ms = messages@;
    let r = keep_positions(messages, &keep);
    assert(msgs_view(r@) == msgs_view(crate::sort::reorder(ms, keep@)));
    r
}

/// The messages that pass a search's filters and, for a scope other than
/// `All`, whose content matches the query (`matcher`) in that scope;
/// `error_matcher` looks for "error".
pub fn apply_search_filters_for_query(
    messages: Vec<ClaudeMessage>,
    filters: &JsonValue,
    matcher: &Matcher,
    error_matcher: &Matcher,
) -> (r: Vec<ClaudeMessage>)
    requires
        error_matcher.pattern() == "error"@,
    ensures
        spec_parse_search_scope(filters@) == SearchScope::All ==> msgs_view(r@)
            == spec_apply_filters(msgs_view(messages@), filters@),
        spec_parse_search_scope(filters@) != SearchScope::All ==> msgs_view(r@)
            == spec_apply_filters_in_scope(
            msgs_view(messages@),
            filters@,
            matcher.pattern(),
            spec_parse_search_scope(filters@),
        ),
{
    let scope = parse_search_scope(filters);
    if scope == SearchScope::All {
        return apply_search_filters(messages, filters, error_matcher);
    }
    let ghost mv = msgs_view(messages@);
    let ghost p = matcher.pattern();
    let mut keep: Vec<usize> = Vec::new();
    let mut i: usize = 0;
    assert(mv.take(0) =~= Seq::<MessageView>::empty());
    assert(msgs_view(crate::sort::reorder(messages@, keep@)) =~= Seq::<MessageView>::empty());
    while i < messages.len()
        invariant
            i <= messages.len(),
            mv == msgs_view(messages@),
            mv.len() == messages@.len(),
            p == matcher.pattern(),
            error_matcher.pattern() == "error"@,
            forall|a: int| 0 <= a < keep.len() ==> #[trigger] keep@[a] < i,
            forall|a: int, b: int| 0 <= a < b < keep.len() ==> keep@[a] < keep@[b],
            msgs_view(crate::sort::reorder(messages@, keep@)) == spec_apply_filters_in_scope(
                mv.take(i as int),
                filters@,
                p,
                scope,
            ),
        decreases messages.len() - i,
    {
        assert(mv.take(i + 1).drop_last() =~= mv.take(i as int));
        assert(mv.take(i + 1).last() == messages@[i as int]@);
        let in_scope = match &messages[i].content {
            Some(c) => content_matches_scope(c, matcher, scope),
            None => false,
        };
        if matches_filters(&messages[i], filters, error_matcher) && in_scope {
            let ghost before = keep@;
            keep.push(i);
            assert(msgs_view(crate::sort::reorder(messages@, keep@)) =~= msgs_view(
                crate::sort::reorder(messages@, before),
            ).push(messages@[i as int]@));
        }
        i = i + 1;
    }
    assert(mv.take(messages.len() as int) =~= mv);
    let ghost ms = messages@;
    let r = keep_positions(messages, &keep);
    assert(msgs_view(r@) == msgs_view(crate::sort::reorder(ms, keep@)));
    r
}

// ---------------------------------------------------------------------------
// Searching conversation log files
// ---------------------------------------------------------------------------

/// The message of one log line.
pub struct MessageContent {
    pub role: String,
    pub content: JsonValue,
    pub id: Option<String>,
    pub model: Option<String>,
    pub stop_reason: Option<String>,
    pub usage: Option<TokenUsage>,
}

/// One line of a conversation log file, as read.
pub struct RawLogEntry {
    pub uuid: Option<String>,
    pub parent_uuid: Option<String>,
    pub session_id: Option<String>,
    pub timestamp: Option<String>,
    pub message_type: String,
    pub message: Option<MessageContent>,
    pub tool_use: Option<JsonValue>,
    pub tool_use_result: Option<JsonValue>,
    pub is_sidechain: Option<bool>,
    /// The cost in US dollars, as the JSON number it was read from.
    pub cost_usd: Option<JsonNumber>,
    pub duration_ms: Option<u64>,
}

/// The character at `i` of a version-4 UUID in the text that `Display`
/// writes: a hyphen at 8, 13, 18 and 23, the version digit `4` at 14, a
/// variant digit (`8`, `9`, `a` or `b`) at 19, a lower-case hex digit
/// elsewhere.
pub open spec fn uuid_char_ok(s: Seq<char>, i: int) -> bool {
    if i == 8 || i == 13 || i == 18 || i == 23 {
        s[i] == '-'
    } else if i == 14 {
        s[i] == '4'
    } else if i == 19 {
        s[i] == '8' || s[i] == '9' || s[i] == 'a' || s[i] == 'b'
    } else {
        "0123456789abcdef"@.contains(s[i])
    }
}

/// The text of a random (version-4) UUID: 36 characters laid out as above.
pub open spec fn is_v4_uuid_text(s: Seq<char>) -> bool {
    &&& s.len() == 36
    &&& forall|i: int| 0 <= i < 36 ==> #[trigger] uuid_char_ok(s, i)
}

/// A fresh random identifier: calls `uuid::Uuid::new_v4().to_string()`.
/// Claimed: the text is that of a version-4 UUID (`new_v4` sets the version
/// and variant bits of a random number, and `Display` writes the lower-case
/// hyphenated form). Which number comes out is left open.
#[verifier::external_body]
fn new_uuid() -> (r: String)
    ensures
        is_v4_uuid_text(r@),
{
    uuid::Uuid::new_v4().to_string()
}

/// The time now: calls `chrono::Utc::now().to_rfc3339()`. Claimed: the text
/// ends in the offset `+00:00`, which `to_rfc3339` writes for UTC. The
/// date and time themselves are left open (a year outside 0..=9999 is
/// written with a sign, so not every outcome is a plain RFC 3339 text).
#[verifier::external_body]
fn now_rfc3339() -> (r: String)
    ensures
        crate::text::ends_with(r@, "+00:00"@),
{
    chrono::Utc::now().to_rfc3339()
}

/// A line is a hit: a user or assistant line with a message whose content
/// matches the query in the scope.
pub open spec fn entry_hits(e: Option<RawLogEntry>, p: Seq<char>, scope: SearchScope) -> bool {
    match e {
        Some(x) => (x.message_type@ == "user"@ || x.message_type@ == "assistant"@) && match x.message {
            Some(mc) => scope_matches(mc.content@, p, scope),
            None => false,
        },
        None => false,
    }
}

/// The positions of the hits, in order.
pub open spec fn hit_positions(es: Seq<Option<RawLogEntry>>, p: Seq<char>, scope: SearchScope) -> Seq<int>
    decreases es.len(),
{
    if es.len() == 0 {
        Seq::empty()
    } else {
        let rest = hit_positions(es.drop_last(), p, scope);
        if entry_hits(es.last(), p, scope) {
            rest.push(es.len() - 1)
        } else {
            rest
        }
    }
}

/// The message a hit on line `line_num` (from 0) gives: its own fields, the
/// message's role, content, id, model, stop reason and usage, and the file's
/// project. Where the line has no uuid the message gets a fresh random UUID
/// followed by "-line-" and the line number from 1 (which UUID is not stated);
/// where it has no time, the time of reading in UTC (only its `+00:00` offset
/// is stated).
pub open spec fn hit_message_fits(
    m: MessageView,
    e: RawLogEntry,
    line_num: int,
    project_name: Option<Seq<char>>,
) -> bool {
    let mc = e.message->0;
    &&& match e.uuid {
        Some(u) => m.uuid == u@,
        None => is_v4_uuid_text(m.uuid.take(36)) && m.uuid.skip(36) == "-line-"@
            + crate::text::decimal((line_num + 1) as nat),
    }
    &&& match e.timestamp {
        Some(t) => m.timestamp == t@,
        None => crate::text::ends_with(m.timestamp, "+00:00"@),
    }
    &&& m.parent_uuid == opt_str(e.parent_uuid)
    &&& m.session_id == match e.session_id {
        Some(sid) => sid@,
        None => "unknown-session"@,
    }
    &&& m.message_type == e.message_type@
    &&& m.content == Some(mc.content@)
    &&& m.project_name == project_name
    &&& m.tool_use == crate::json::opt_view(e.tool_use)
    &&& m.tool_use_result == crate::json::opt_view(e.tool_use_result)
    &&& m.is_sidechain == e.is_sidechain
    &&& m.usage == crate::models::opt_usage(mc.usage)
    &&& m.role == Some(mc.role@)
    &&& m.model == opt_str(mc.model)
    &&& m.stop_reason == opt_str(mc.stop_reason)
    &&& m.cost_usd == crate::models::opt_number(e.cost_usd)
    &&& m.duration_ms == e.duration_ms
    &&& m.message_id == opt_str(mc.id)
    &&& m.snapshot is None && m.is_snapshot_update is None && m.data is None
    &&& m.tool_use_id is None && m.parent_tool_use_id is None && m.operation is None
    &&& m.subtype is None && m.level is None && m.hook_count is None && m.hook_infos is None
    &&& m.stop_reason_system is None && m.prevented_continuation is None
    &&& m.compact_metadata is None && m.microcompact_metadata is None && m.provider is None
}

pub(crate) fn copy_usage(u: &Option<TokenUsage>) -> (r: Option<TokenUsage>)
    ensures
        crate::models::opt_usage(r) == crate::models::opt_usage(*u),
{
    match u {
        Some(x) => Some(
            TokenUsage {
                input_tokens: x.input_tokens,
                output_tokens: x.output_tokens,
                cache_creation_input_tokens: x.cache_creation_input_tokens,
                cache_read_input_tokens: x.cache_read_input_tokens,
                service_tier: crate::models::copy_opt_string(&x.service_tier),
            },
        ),
        None => None,
    }
}

pub(crate) fn copy_json(v: &Option<JsonValue>) -> (r: Option<JsonValue>)
    ensures
        crate::json::opt_view(r) == crate::json::opt_view(*v),
{
    match v {
        Some(x) => Some(x.deep_clone()),
        None => None,
    }
}

pub(crate) fn copy_number(n: &Option<JsonNumber>) -> (r: Option<JsonNumber>)
    ensures
        crate::models::opt_number(r) == crate::models::opt_number(*n),
{
    match n {
        Some(JsonNumber::PosInt(u)) => Some(JsonNumber::PosInt(*u)),
        Some(JsonNumber::NegInt(i)) => Some(JsonNumber::NegInt(*i)),
        Some(JsonNumber::Float(t)) => Some(JsonNumber::Float(t.clone())),
        None => None,
    }
}

fn hit_message(e: &RawLogEntry, mc: &MessageContent, line_num: usize, project_name: &Option<String>) -> (r:
    ClaudeMessage)
    requires
        e.message == Some(*mc),
        line_num < usize::MAX,
    ensures
        hit_message_fits(r@, *e, line_num as int, opt_str(*project_name)),
{
    let uuid = match &e.uuid {
        Some(u) => u.clone(),
        None => {
            let mut v = crate::text::chars_of(new_uuid().as_str());
            let ghost head = v@;
            let suffix = crate::codex::convert::prefixed_number("-line-", (line_num + 1) as u64);
            crate::text::push_str(&mut v, suffix.as_str());
            assert(v@.take(36) =~= head);
            assert(v@.skip(36) =~= suffix@);
            crate::text::string_from_chars(&v)
        },
    };
    let timestamp = match &e.timestamp {
        Some(t) => t.clone(),
        None => now_rfc3339(),
    };
    ClaudeMessage {
        uuid,
        parent_uuid: crate::models::copy_opt_string(&e.parent_uuid),
        session_id: match &e.session_id {
            Some(s) => s.clone(),
            None => "unknown-session".to_owned(),
        },
        timestamp,
        message_type: e.message_type.clone(),
        content: Some(mc.content.deep_clone()),
        project_name: crate::models::copy_opt_string(project_name),
        tool_use: copy_json(&e.tool_use),
        tool_use_result: copy_json(&e.tool_use_result),
        is_sidechain: e.is_sidechain,
        usage: copy_usage(&mc.usage),
        role: Some(mc.role.clone()),
        model: crate::models::copy_opt_string(&mc.model),
        stop_reason: crate::models::copy_opt_string(&mc.stop_reason),
        cost_usd: copy_number(&e.cost_usd),
        duration_ms: e.duration_ms,
        message_id: crate::models::copy_opt_string(&mc.id),
        snapshot: None,
        is_snapshot_update: None,
        data: None,
        tool_use_id: None,
        parent_tool_use_id: None,
        operation: None,
        subtype: None,
        level: None,
        hook_count: None,
        hook_infos: None,
        stop_reason_system: None,
        prevented_continuation: None,
        compact_metadata: None,
        microcompact_metadata: None,
        provider: None,
    }
}

/// The project of a conversation log file: the name of its directory.
pub fn extract_project_name(file_path: &str) -> (r: Option<String>)
    ensures
        opt_str(r) == crate::codex::paths::path_parent_name(file_path@),
{
    crate::codex::paths::parent_name(file_path)
}

/// The messages of one conversation log file (its lines as read; nothing
/// for a line that is no log entry) whose content matches the query in the
/// scope, each carrying the file's project.
pub fn search_in_file(
    entries: &Vec<Option<RawLogEntry>>,
    project_name: &Option<String>,
    matcher: &Matcher,
    search_scope: SearchScope,
) -> (r: Vec<ClaudeMessage>)
    requires
        entries.len() < usize::MAX,
    ensures
        r.len() == hit_positions(entries@, matcher.pattern(), search_scope).len(),
        forall|j: int|
            0 <= j < r.len() ==> {
                let pos = #[trigger] hit_positions(entries@, matcher.pattern(), search_scope)[j];
                &&& 0 <= pos < entries.len()
                &&& entries@[pos] is Some
                &&& hit_message_fits(r@[j]@, entries@[pos]->0, pos, opt_str(*project_name))
            },
{
    let ghost p = matcher.pattern();
    let mut results: Vec<ClaudeMessage> = Vec::new();
    let mut i: usize = 0;
    assert(entries@.take(0) =~= Seq::<Option<RawLogEntry>>::empty());
    while i < entries.len()
        invariant
            i <= entries.len(),
            entries.len() < usize::MAX,
            p == matcher.pattern(),
            results.len() == hit_positions(entries@.take(i as int), p, search_scope).len(),
            forall|j: int|
                0 <= j < results.len() ==> {
                    let pos = #[trigger] hit_positions(entries@.take(i as int), p, search_scope)[j];
                    &&& 0 <= pos < i
                    &&& entries@[pos] is Some
                    &&& hit_message_fits(results@[j]@, entries@[pos]->0, pos, opt_str(*project_name))
                },
        decreases entries.len() - i,
    {
        assert(entries@.take(i + 1).drop_last() =~= entries@.take(i as int));
        assert(entries@.take(i + 1).last() == entries@[i as int]);
        let ghost before = hit_positions(entries@.take(i as int), p, search_scope);
        match &entries[i] {
            Some(e) => {
                let is_chat = str_eq(e.message_type.as_str(), "user") || str_eq(
                    e.message_type.as_str(),
                    "assistant",
                );
                match &e.message {
                    Some(mc) => {
                        if is_chat && content_matches_scope(&mc.content, matcher, search_scope) {
                            let m = hit_message(e, mc, i, project_name);
                            results.push(m);
                            assert(hit_positions(entries@.take(i + 1), p, search_scope)
                                == before.push(i as int));
                        }
                    },
                    None => {},
                }
            },
            None => {},
        }
        i = i + 1;
    }
    assert(entries@.take(entries.len() as int) =~= entries@);
    results
}

pub open spec fn timestamp_keys(ms: Seq<MessageView>) -> Seq<crate::sort::KeyView> {
    ms.map_values(|m: MessageView| crate::sort::KeyView { instant: None, text: m.timestamp })
}

/// The `max_results` newest messages (by the text of their time), newest
/// first; messages with the same time keep their order.
pub open spec fn spec_select_latest(ms: Seq<MessageView>, max_results: usize) -> Seq<MessageView> {
    crate::sort::reorder(ms, crate::sort::newest_first_k(timestamp_keys(ms), max_results as int))
}

pub fn select_latest(messages: Vec<ClaudeMessage>, max_results: usize) -> (r: Vec<ClaudeMessage>)
    ensures
        msgs_view(r@) == spec_select_latest(msgs_view(messages@), max_results),
{
    let ghost mv = msgs_view(messages@);
    let mut keys: Vec<crate::sort::SortKey> = Vec::new();
    let mut j: usize = 0;
    while j < messages.len()
        invariant
            j <= messages.len(),
            keys.len() == j,
            mv == msgs_view(messages@),
            forall|a: int| 0 <= a < j ==> #[trigger] keys@[a]@ == timestamp_keys(mv)[a],
        decreases messages.len() - j,
    {
        keys.push(crate::sort::SortKey { instant: None, text: crate::text::chars_of(messages[j].timestamp.as_str()) });
        j = j + 1;
    }
    assert(crate::sort::keys_view(keys@) =~= timestamp_keys(mv));
    let order = crate::sort::first_k_positions(&keys, max_results);
    proof {
        assert forall|a: int, b: int| 0 <= a < b < order@.len() implies #[trigger] order@[a] != #[trigger] order@[b] by {
            crate::sort::lemma_in_order_distinct(crate::sort::keys_view(keys@), order@, a, b);
        }
    }
    let picked = crate::sort::pick_in_order(messages, &order);
    assert(msgs_view(picked@) =~= crate::sort::reorder(mv, order@));
    picked
}

/// One conversation log file, as read for a search.
pub struct LogFile {
    /// The project of the file (the name of its directory).
    pub project_name: Option<String>,
    /// Its lines, each as a log entry where it reads as one.
    pub entries: Vec<Option<RawLogEntry>>,
}

/// `ms` are the messages of the hits of one file, as `search_in_file` gives
/// them.
pub open spec fn file_hits_fit(ms: Seq<MessageView>, f: LogFile, p: Seq<char>, scope: SearchScope) -> bool {
    let hits = hit_positions(f.entries@, p, scope);
    &&& ms.len() == hits.len()
    &&& forall|j: int|
        0 <= j < ms.len() ==> {
            let pos = #[trigger] hits[j];
            &&& 0 <= pos < f.entries.len()
            &&& f.entries@[pos] is Some
            &&& hit_message_fits(ms[j], f.entries@[pos]->0, pos, opt_str(f.project_name))
        }
}

/// `found` are the hits of all files, file after file.
pub open spec fn all_hits_fit(found: Seq<MessageView>, files: Seq<LogFile>, p: Seq<char>, scope: SearchScope) -> bool {
    exists|segs: Seq<Seq<MessageView>>|
        segs.len() == files.len() && (forall|k: int|
            0 <= k < files.len() ==> file_hits_fit(#[trigger] segs[k], files[k], p, scope))
            && found == segs.flatten()
}

/// The search limit where a search names none.
pub const DEFAULT_SEARCH_LIMIT: usize = 100;

/// Searches conversation log files: the filters are checked first; then
/// the hits of every file, in file order, that pass the filters, the
/// `limit` (100 where none is given) newest first.
pub fn search_messages(
    files: &Vec<LogFile>,
    filters: &JsonValue,
    limit: Option<usize>,
    matcher: &Matcher,
    error_matcher: &Matcher,
) -> (r: Result<Vec<ClaudeMessage>, String>)
    requires
        error_matcher.pattern() == "error"@,
        forall|k: int| 0 <= k < files.len() ==> #[trigger] files@[k].entries.len() < usize::MAX,
    ensures
        spec_filters_error(filters@) matches Some(m) ==> (r matches Err(e) && e@ == m),
        spec_filters_error(filters@) is None ==> (r matches Ok(v) && exists|found: Seq<MessageView>|
            all_hits_fit(found, files@, matcher.pattern(), spec_parse_search_scope(filters@))
                && msgs_view(v@) == spec_select_latest(
                spec_apply_filters(found, filters@),
                match limit {
                    Some(l) => l,
                    None => DEFAULT_SEARCH_LIMIT,
                },
            )),
{
    let max_results = match limit {
        Some(l) => l,
        None => DEFAULT_SEARCH_LIMIT,
    };
    match validate_search_filters(filters) {
        Ok(()) => {},
        Err(e) => {
            return Err(e);
        },
    }
    let scope = parse_search_scope(filters);
    let ghost p = matcher.pattern();
    let mut found: Vec<ClaudeMessage> = Vec::new();
    let ghost mut segs: Seq<Seq<MessageView>> = Seq::empty();
    let mut k: usize = 0;
    assert(msgs_view(found@) =~= segs.flatten());
    while k < files.len()
        invariant
            k <= files.len(),
            p == matcher.pattern(),
            forall|q: int| 0 <= q < files.len() ==> #[trigger] files@[q].entries.len() < usize::MAX,
            segs.len() == k,
            forall|q: int| 0 <= q < k ==> file_hits_fit(#[trigger] segs[q], files@[q], p, scope),
            msgs_view(found@) == segs.flatten(),
        decreases files.len() - k,
    {
        let mut hits = search_in_file(&files[k].entries, &files[k].project_name, matcher, scope);
        let ghost hv = msgs_view(hits@);
        assert(file_hits_fit(hv, files@[k as int], p, scope));
        let ghost before = found@;
        found.append(&mut hits);
        proof {
            segs.lemma_flatten_push(hv);
            assert(msgs_view(found@) =~= msgs_view(before) + hv);
            segs = segs.push(hv);
        }
        k = k + 1;
    }
    assert(all_hits_fit(msgs_view(found@), files@, p, scope));
    let ghost fv = msgs_view(found@);
    let filtered = apply_search_filters(found, filters, error_matcher);
    let r = select_latest(filtered, max_results);
    assert(msgs_view(r@) == spec_select_latest(spec_apply_filters(fv, filters@), max_results));
    Ok(r)
}

// ---------------------------------------------------------------------------
// Laws of searching
// ---------------------------------------------------------------------------

/// Every message the filters keep passes them, and none is added.
pub proof fn law_apply_filters_sound(ms: Seq<MessageView>, f: Json, j: int)
    requires
        0 <= j < spec_apply_filters(ms, f).len(),
    ensures
        spec_apply_filters(ms, f).len() <= ms.len(),
        spec_matches_filters(spec_apply_filters(ms, f)[j], f),
        ms.contains(spec_apply_filters(ms, f)[j]),
    decreases ms.len(),
{
    lemma_apply_filters_len(ms, f);
    let rest = spec_apply_filters(ms.drop_last(), f);
    lemma_apply_filters_len(ms.drop_last(), f);
    if j < rest.len() {
        law_apply_filters_sound(ms.drop_last(), f, j);
        let k = choose|k: int| 0 <= k < ms.drop_last().len() && ms.drop_last()[k] == rest[j];
        assert(ms[k] == ms.drop_last()[k]);
    } else {
        assert(ms[ms.len() - 1] == ms.last());
    }
}

proof fn lemma_apply_filters_len(ms: Seq<MessageView>, f: Json)
    ensures
        spec_apply_filters(ms, f).len() <= ms.len(),
    decreases ms.len(),
{
    if ms.len() > 0 {
        lemma_apply_filters_len(ms.drop_last(), f);
    }
}

/// Filters that are no object keep every message.
pub proof fn law_non_object_filters_keep_all(ms: Seq<MessageView>, f: Json)
    requires
        !f.is_object(),
    ensures
        spec_apply_filters(ms, f) == ms,
    decreases ms.len(),
{
    if ms.len() > 0 {
        law_non_object_filters_keep_all(ms.drop_last(), f);
        assert(ms.drop_last().push(ms.last()) =~= ms);
    }
}

proof fn lemma_lower_idem(s: Seq<char>)
    ensures
        ascii_lower_seq(ascii_lower_seq(s)) == ascii_lower_seq(s),
{
    assert forall|i: int| 0 <= i < s.len() implies #[trigger] ascii_lower_seq(ascii_lower_seq(s))[i]
        == ascii_lower_seq(s)[i] by {
        let c = s[i];
        if 'A' <= c && c <= 'Z' {
            assert(((c as u32) + 32) as char == ascii_lower(c));
        }
    }
    assert(ascii_lower_seq(ascii_lower_seq(s)) =~= ascii_lower_seq(s));
}

/// Matching ignores the case of ASCII letters, in the text and in the query.
pub proof fn law_match_ignores_ascii_case(p: Seq<char>, t: Seq<char>)
    ensures
        spec_is_match(p, t) == spec_is_match(ascii_lower_seq(p), t),
        spec_is_match(p, t) == spec_is_match(p, ascii_lower_seq(t)),
{
    lemma_lower_idem(p);
    lemma_lower_idem(t);
}

/// Item `i` of a content array is a `tool_use` of Write, Edit, MultiEdit or
/// NotebookEdit.
pub open spec fn uses_file_tool_at(a: Seq<Json>, i: int) -> bool {
    &&& a[i].str_at("type"@) == Some("tool_use"@)
    &&& a[i].str_at("name"@) == Some("Write"@) || a[i].str_at("name"@) == Some("Edit"@) || a[i].str_at(
        "name"@,
    ) == Some("MultiEdit"@) || a[i].str_at("name"@) == Some("NotebookEdit"@)
}

proof fn lemma_any_file_change(a: Seq<Json>)
    ensures
        any_file_change(a) <==> exists|i: int| 0 <= i < a.len() && #[trigger] uses_file_tool_at(a, i),
    decreases a.len(),
{
    if a.len() > 0 {
        lemma_any_file_change(a.drop_last());
        let n = a.len() - 1;
        assert(a.last() == a[n]);
        assert(uses_file_tool_at(a, n) == (a.last().str_at("type"@) == Some("tool_use"@) && match a.last().str_at("name"@) {
            Some(x) => is_file_tool(x),
            None => false,
        }));
        if any_file_change(a.drop_last()) {
            let i = choose|i: int|
                0 <= i < a.drop_last().len() && #[trigger] uses_file_tool_at(a.drop_last(), i);
            assert(a.drop_last()[i] == a[i]);
            assert(uses_file_tool_at(a, i));
        }
        if exists|i: int| 0 <= i < a.len() && #[trigger] uses_file_tool_at(a, i) {
            let i = choose|i: int| 0 <= i < a.len() && #[trigger] uses_file_tool_at(a, i);
            if i < a.len() - 1 {
                assert(a.drop_last()[i] == a[i]);
                assert(uses_file_tool_at(a.drop_last(), i));
            } else {
                assert(a.last() == a[i]);
            }
        }
    }
}

/// A message has file changes exactly where its content is an array holding
/// a `tool_use` block of Write, Edit, MultiEdit or NotebookEdit.
pub proof fn law_file_changes_are_file_tool_uses(m: MessageView)
    ensures
        spec_has_file_changes(m) <==> match m.content {
            Some(Json::Array(a)) => exists|i: int| 0 <= i < a.len() && #[trigger] uses_file_tool_at(a, i),
            _ => false,
        },
{
    match m.content {
        Some(Json::Array(a)) => lemma_any_file_change(a),
        _ => {},
    }
}

/// With the filter `hasFileChanges: true`, a message whose content holds a
/// `tool_use` of Write, Edit, MultiEdit or NotebookEdit passes that flag;
/// with `false` it does not pass.
pub proof fn law_file_change_filter_keeps_file_tool_uses(m: MessageView, f: Json, a: Seq<Json>, i: int)
    requires
        m.content == Some(Json::Array(a)),
        0 <= i < a.len(),
        uses_file_tool_at(a, i),
    ensures
        bool_filter_ok(f, "hasFileChanges"@, spec_has_file_changes(m)) == match f.get(
            "hasFileChanges"@,
        ) {
            Some(v) => match v.as_bool() {
                Some(b) => b,
                None => true,
            },
            None => true,
        },
{
    lemma_any_file_change(a);
}

} // verus!
