use vstd::prelude::*;

use crate::json::{
    entries_insert, entries_insert_exec, entries_lookup, entries_view, group_json_view, items_view,
    opt_ref_view, opt_view, serde_json_parsed, Json, JsonValue,
};
use crate::models::{
    opt_str, opt_str_ref, spec_provider_message, build_provider_message, ClaudeMessage, MessageView,
};
use crate::text::{
    chars_of, decimal, find, find_chars, join, push_chars, push_decimal, push_str,
    string_from_chars, str_eq, sub_chars,
};

verus! {

broadcast use group_json_view;

// ---------------------------------------------------------------------------
// Small spec helpers
// ---------------------------------------------------------------------------

/// `o.unwrap_or(d)`
pub open spec fn or_str(o: Option<Seq<char>>, d: Seq<char>) -> Seq<char> {
    match o {
        Some(s) => s,
        None => d,
    }
}

pub open spec fn jstr(s: Seq<char>) -> Json {
    Json::Str(s)
}

pub open spec fn jobj1(k1: Seq<char>, v1: Json) -> Json {
    Json::Object(seq![(k1, v1)])
}

pub open spec fn jobj2(k1: Seq<char>, v1: Json, k2: Seq<char>, v2: Json) -> Json {
    Json::Object(seq![(k1, v1), (k2, v2)])
}

pub open spec fn jobj3(k1: Seq<char>, v1: Json, k2: Seq<char>, v2: Json, k3: Seq<char>, v3: Json) -> Json {
    Json::Object(seq![(k1, v1), (k2, v2), (k3, v3)])
}

pub open spec fn jobj4(
    k1: Seq<char>,
    v1: Json,
    k2: Seq<char>,
    v2: Json,
    k3: Seq<char>,
    v3: Json,
    k4: Seq<char>,
    v4: Json,
) -> Json {
    Json::Object(seq![(k1, v1), (k2, v2), (k3, v3), (k4, v4)])
}

/// The values of `items` picked by `key`: the strings themselves where `key`
/// is `None`, the string member under `key` otherwise (others are skipped).
pub open spec fn picked(j: Json, key: Option<Seq<char>>) -> Option<Seq<char>> {
    match key {
        None => j.as_str(),
        Some(k) => j.str_at(k),
    }
}

pub open spec fn picked_strings(items: Seq<Json>, key: Option<Seq<char>>) -> Seq<Seq<char>>
    decreases items.len(),
{
    if items.len() == 0 {
        Seq::empty()
    } else {
        let rest = picked_strings(items.drop_last(), key);
        match picked(items.last(), key) {
            Some(s) => rest.push(s),
            None => rest,
        }
    }
}

/// `arr.iter().filter_map(Value::as_str).collect::<Vec<_>>().join(sep)`
pub open spec fn join_strings(items: Seq<Json>, sep: Seq<char>) -> Seq<char> {
    join(picked_strings(items, None), sep)
}

pub proof fn lemma_join_push(parts: Seq<Seq<char>>, x: Seq<char>, sep: Seq<char>)
    ensures
        join(parts.push(x), sep) == if parts.len() == 0 {
            x
        } else {
            join(parts, sep) + sep + x
        },
{
    assert(parts.push(x).drop_last() =~= parts);
}

pub fn pick<'a>(j: &'a JsonValue, key: Option<&str>) -> (r: Option<&'a str>)
    ensures
        r matches Some(s) ==> picked(j@, opt_str_ref(key)) == Some(s@),
        r is None ==> picked(j@, opt_str_ref(key)) is None,
{
    match key {
        None => j.as_str(),
        Some(k) => j.str_at(k),
    }
}

/// Joins with `sep` the strings that `key` picks from `arr`.
pub fn join_picked(arr: &Vec<JsonValue>, key: Option<&str>, sep: &str) -> (r: String)
    ensures
        r@ == join(picked_strings(items_view(arr@), opt_str_ref(key)), sep@),
{
    let ghost iv = items_view(arr@);
    let ghost k = opt_str_ref(key);
    let sepv = chars_of(sep);
    let mut acc: Vec<char> = Vec::new();
    let mut any = false;
    let mut i: usize = 0;
    assert(iv.take(0) =~= Seq::<Json>::empty());
    while i < arr.len()
        invariant
            i <= arr.len(),
            iv == items_view(arr@),
            iv.len() == arr@.len(),
            k == opt_str_ref(key),
            sepv@ == sep@,
            acc@ == join(picked_strings(iv.take(i as int), k), sep@),
            any == (picked_strings(iv.take(i as int), k).len() > 0),
        decreases arr.len() - i,
    {
        let ghost before = picked_strings(iv.take(i as int), k);
        assert(iv.take(i + 1).drop_last() =~= iv.take(i as int));
        assert(iv.take(i + 1).last() == arr@[i as int]@);
        match pick(&arr[i], key) {
            Some(s) => {
                proof {
                    lemma_join_push(before, s@, sep@);
                }
                if any {
                    push_chars(&mut acc, &sepv);
                }
                push_str(&mut acc, s);
                any = true;
            },
            None => {},
        }
        i = i + 1;
    }
    assert(iv.take(arr.len() as int) =~= iv);
    string_from_chars(&acc)
}

// ---------------------------------------------------------------------------
// Tool names and tool inputs
// ---------------------------------------------------------------------------

/// Codex's shell tools are shown as `Bash`; every other name is kept.
pub open spec fn spec_map_codex_tool_name(name: Seq<char>) -> Seq<char> {
    if name == "exec_command"@ || name == "shell"@ || name == "write_stdin"@ {
        "Bash"@
    } else {
        name
    }
}

pub fn map_codex_tool_name(name: &str) -> (r: &str)
    ensures
        r@ == spec_map_codex_tool_name(name@),
{
    if str_eq(name, "exec_command") || str_eq(name, "shell") || str_eq(name, "write_stdin") {
        "Bash"
    } else {
        name
    }
}

/// The input of a function call: its `arguments` read as JSON text when they
/// are a string (an empty object where that text is no JSON), kept when they
/// are an object or an array, an empty object otherwise.
pub open spec fn spec_parse_tool_arguments(arguments: Option<Json>) -> Json {
    match arguments {
        Some(Json::Str(s)) => spec_arguments_from_parsed(serde_json_parsed(s)),
        Some(Json::Object(e)) => Json::Object(e),
        Some(Json::Array(a)) => Json::Array(a),
        _ => Json::Object(Seq::empty()),
    }
}

/// The input of a call whose arguments are JSON text, given that text as
/// parsed: the document, or an empty object where the text is no JSON.
pub open spec fn spec_arguments_from_parsed(parsed: Option<Json>) -> Json {
    match parsed {
        Some(v) => v,
        None => Json::Object(Seq::empty()),
    }
}

pub fn arguments_from_parsed(parsed: Option<JsonValue>) -> (r: JsonValue)
    ensures
        r@ == spec_arguments_from_parsed(opt_view(parsed)),
{
    match parsed {
        Some(v) => v,
        None => JsonValue::empty_object(),
    }
}

pub fn parse_tool_arguments(arguments: Option<&JsonValue>) -> (r: JsonValue)
    ensures
        r@ == spec_parse_tool_arguments(opt_ref_view(arguments)),
{
    match arguments {
        Some(JsonValue::Str(s)) => arguments_from_parsed(crate::json::serde_parse_text(s.as_str())),
        Some(v) => {
            if v.is_object() || v.as_array().is_some() {
                v.deep_clone()
            } else {
                JsonValue::empty_object()
            }
        },
        None => JsonValue::empty_object(),
    }
}

/// The `command` of a Bash call as the viewer expects it: Codex's `cmd` is
/// copied to `command` where `command` is missing (a string as it is, an array
/// joined by spaces), and an array `command` is joined by spaces.
pub open spec fn spec_normalize_bash_entries(e: Seq<(Seq<char>, Json)>) -> Seq<(Seq<char>, Json)> {
    let e1 = if entries_lookup(e, "command"@) is None {
        match entries_lookup(e, "cmd"@) {
            Some(Json::Str(s)) => entries_insert(e, "command"@, Json::Str(s)),
            Some(Json::Array(a)) => entries_insert(e, "command"@, Json::Str(join_strings(a, " "@))),
            _ => e,
        }
    } else {
        e
    };
    match entries_lookup(e1, "command"@) {
        Some(Json::Array(a)) => entries_insert(e1, "command"@, Json::Str(join_strings(a, " "@))),
        _ => e1,
    }
}

pub open spec fn spec_normalize_tool_input(tool_name: Seq<char>, input: Json) -> Json {
    if tool_name != "Bash"@ {
        input
    } else {
        match input {
            Json::Object(e) => Json::Object(spec_normalize_bash_entries(e)),
            _ => input,
        }
    }
}

fn entries_get<'a>(entries: &'a Vec<(String, JsonValue)>, key: &str) -> (r: Option<&'a JsonValue>)
    ensures
        opt_ref_view(r) == entries_lookup(entries_view(entries@), key@),
{
    let mut i: usize = 0;
    let ghost e = entries_view(entries@);
    while i < entries.len()
        invariant
            i <= entries.len(),
            e == entries_view(entries@),
            e.len() == entries@.len(),
            forall|j: int| 0 <= j < i ==> #[trigger] e[j].0 != key@,
        decreases entries.len() - i,
    {
        assert(e[i as int] == (entries@[i as int].0@, entries@[i as int].1@));
        if str_eq(entries[i].0.as_str(), key) {
            proof {
                crate::json::lemma_entries_pos_at(e, key@, i as int);
            }
            return Some(&entries[i].1);
        }
        i = i + 1;
    }
    proof {
        crate::json::lemma_entries_pos_at(e, key@, i as int);
    }
    None
}

pub fn normalize_tool_input(tool_name: &str, input: &mut JsonValue)
    ensures
        final(input)@ == spec_normalize_tool_input(tool_name@, old(input)@),
{
    if !str_eq(tool_name, "Bash") {
        return ;
    }
    let mut taken = JsonValue::Null;
    std::mem::swap(&mut taken, input);
    match taken {
        JsonValue::Object(mut entries) => {
            let ghost e0 = entries_view(entries@);
            if entries_get(&entries, "command").is_none() {
                let replacement: Option<JsonValue> = match entries_get(&entries, "cmd") {
                    Some(JsonValue::Str(s)) => Some(JsonValue::Str(s.clone())),
                    Some(JsonValue::Array(a)) => Some(JsonValue::Str(join_picked(a, None, " "))),
                    _ => None,
                };
                match replacement {
                    Some(v) => entries_insert_exec(&mut entries, "command", v),
                    None => {},
                }
            }
            let joined: Option<JsonValue> = match entries_get(&entries, "command") {
                Some(JsonValue::Array(a)) => Some(JsonValue::Str(join_picked(a, None, " "))),
                _ => None,
            };
            match joined {
                Some(v) => entries_insert_exec(&mut entries, "command", v),
                None => {},
            }
            *input = JsonValue::Object(entries);
        },
        other => {
            *input = other;
        },
    }
}

/// The input of a custom tool call: an object is kept; the text of an
/// `apply_patch` call becomes `{"patch": text}` (an empty text where it is no
/// string); any other input becomes `{"input": input}`.
pub open spec fn spec_normalize_custom_tool_input(tool_name: Seq<char>, input: Json) -> Json {
    if input.is_object() {
        input
    } else if tool_name == "apply_patch"@ {
        jobj1("patch"@, jstr(or_str(input.as_str(), ""@)))
    } else {
        jobj1("input"@, input)
    }
}

pub fn normalize_custom_tool_input(tool_name: &str, input: &mut JsonValue)
    ensures
        final(input)@ == spec_normalize_custom_tool_input(tool_name@, old(input)@),
{
    if input.is_object() {
        return ;
    }
    if str_eq(tool_name, "apply_patch") {
        let patch = match input.as_str() {
            Some(s) => JsonValue::from_str(s),
            None => JsonValue::from_str(""),
        };
        *input = JsonValue::obj1("patch", patch);
        return ;
    }
    let mut taken = JsonValue::Null;
    std::mem::swap(&mut taken, input);
    *input = JsonValue::obj1("input", taken);
}

/// The input of a web search call: `query` from the action's `query`, `url` or
/// `pattern` (the first that is a string), `queries` as the action has it, and
/// `action_type` from the action's `type`; an empty object where the action is
/// no object.
pub open spec fn spec_normalize_web_search_input(action: Json) -> Json {
    if !action.is_object() {
        Json::Object(Seq::empty())
    } else {
        let q = if action.str_at("query"@) is Some {
            action.str_at("query"@)
        } else if action.str_at("url"@) is Some {
            action.str_at("url"@)
        } else {
            action.str_at("pattern"@)
        };
        let e0: Seq<(Seq<char>, Json)> = Seq::empty();
        let e1 = match q {
            Some(s) => entries_insert(e0, "query"@, jstr(s)),
            None => e0,
        };
        let e2 = match action.get("queries"@) {
            Some(v) => entries_insert(e1, "queries"@, v),
            None => e1,
        };
        let e3 = match action.str_at("type"@) {
            Some(t) => entries_insert(e2, "action_type"@, jstr(t)),
            None => e2,
        };
        Json::Object(e3)
    }
}

pub fn normalize_web_search_input(action: JsonValue) -> (r: JsonValue)
    ensures
        r@ == spec_normalize_web_search_input(action@),
{
    if !action.is_object() {
        return JsonValue::empty_object();
    }
    let mut input: Vec<(String, JsonValue)> = Vec::new();
    assert(entries_view(input@) =~= Seq::<(Seq<char>, Json)>::empty());
    let q: Option<&str> = match action.str_at("query") {
        Some(s) => Some(s),
        None => match action.str_at("url") {
            Some(s) => Some(s),
            None => action.str_at("pattern"),
        },
    };
    match q {
        Some(s) => entries_insert_exec(&mut input, "query", JsonValue::from_str(s)),
        None => {},
    }
    match action.get("queries") {
        Some(v) => entries_insert_exec(&mut input, "queries", v.deep_clone()),
        None => {},
    }
    match action.str_at("type") {
        Some(t) => entries_insert_exec(&mut input, "action_type", JsonValue::from_str(t)),
        None => {},
    }
    JsonValue::object(input)
}

/// The output of a tool call: a string that is JSON with an `output` member
/// becomes that member; otherwise a string holding "\nOutput:\n" becomes what
/// follows its first occurrence; anything else is kept.
pub open spec fn spec_normalize_tool_output(output: Json) -> Json {
    match output {
        Json::Str(raw) => spec_tool_output_from(raw, serde_json_parsed(raw)),
        _ => output,
    }
}

/// The output of a tool call given as text `raw` and that text as parsed
/// (`parsed`): the `output` member of the document where it has one; else
/// what follows the first "\nOutput:\n" in the text; else the text.
pub open spec fn spec_tool_output_from(raw: Seq<char>, parsed: Option<Json>) -> Json {
    let inner = match parsed {
        Some(p) => p.get("output"@),
        None => None,
    };
    match inner {
        Some(v) => v,
        None => match find(raw, "\nOutput:\n"@) {
            Some(i) => Json::Str(raw.skip(i + 9)),
            None => Json::Str(raw),
        },
    }
}

pub fn normalize_tool_output(output: JsonValue) -> (r: JsonValue)
    ensures
        r@ == spec_normalize_tool_output(output@),
{
    match output {
        JsonValue::Str(raw) => {
            let parsed = crate::json::serde_parse_text(raw.as_str());
            tool_output_from_parsed(raw, parsed)
        },
        other => other,
    }
}

pub fn tool_output_from_parsed(raw: String, parsed: Option<JsonValue>) -> (r: JsonValue)
    ensures
        r@ == spec_tool_output_from(raw@, opt_view(parsed)),
{
    match &parsed {
        Some(p) => {
            match p.get("output") {
                Some(inner) => {
                    return inner.deep_clone();
                },
                None => {},
            }
        },
        None => {},
    }
    let hv = chars_of(raw.as_str());
    let marker = chars_of("\nOutput:\n");
    proof {
        reveal_strlit("\nOutput:\n");
    }
    match find_chars(&hv, &marker) {
        Some(i) => {
            proof {
                crate::text::lemma_find_from(hv@, marker@, 0);
            }
            assert(marker@.len() == 9);
            assert(i + 9 <= hv.len());
            let rest = sub_chars(&hv, i + 9, hv.len());
            assert(rest@ =~= hv@.skip(i + 9));
            JsonValue::Str(string_from_chars(&rest))
        },
        None => JsonValue::Str(raw),
    }
}


// ---------------------------------------------------------------------------
// Content blocks
// ---------------------------------------------------------------------------

/// The block types that carry plain text.
pub open spec fn is_text_type(t: Seq<char>) -> bool {
    t == "input_text"@ || t == "output_text"@ || t == "text"@
}

pub fn is_text_type_exec(t: &str) -> (r: bool)
    ensures
        r == is_text_type(t@),
{
    str_eq(t, "input_text") || str_eq(t, "output_text") || str_eq(t, "text")
}

/// One Codex content block as the viewer shows it: text blocks become `text`
/// blocks, an image with a non-empty URL becomes an `image` block, a refusal
/// becomes a text block starting "[Refusal] "; anything else is dropped.
pub open spec fn spec_convert_content_item(c: Json) -> Option<Json> {
    let ctype = or_str(c.str_at("type"@), ""@);
    if is_text_type(ctype) {
        Some(jobj2("type"@, jstr("text"@), "text"@, jstr(or_str(c.str_at("text"@), ""@))))
    } else if ctype == "input_image"@ {
        let url = or_str(c.str_at("image_url"@), ""@);
        if url.len() == 0 {
            None
        } else {
            Some(
                jobj2(
                    "type"@,
                    jstr("image"@),
                    "source"@,
                    jobj2("type"@, jstr("url"@), "url"@, jstr(url)),
                ),
            )
        }
    } else if ctype == "refusal"@ {
        Some(
            jobj2(
                "type"@,
                jstr("text"@),
                "text"@,
                jstr("[Refusal] "@ + or_str(c.str_at("refusal"@), "Refused"@)),
            ),
        )
    } else {
        None
    }
}

pub open spec fn convert_items(items: Seq<Json>) -> Seq<Json>
    decreases items.len(),
{
    if items.len() == 0 {
        Seq::empty()
    } else {
        let rest = convert_items(items.drop_last());
        match spec_convert_content_item(items.last()) {
            Some(x) => rest.push(x),
            None => rest,
        }
    }
}

/// The content of a Codex message as the viewer shows it; nothing where no
/// block is kept.
pub open spec fn spec_convert_codex_content_array(content: Option<Json>) -> Option<Json> {
    match content {
        Some(Json::Array(a)) => {
            let items = convert_items(a);
            if items.len() == 0 {
                None
            } else {
                Some(Json::Array(items))
            }
        },
        _ => None,
    }
}

pub fn str_or<'a>(o: Option<&'a str>, d: &'a str) -> (r: &'a str)
    ensures
        r@ == or_str(opt_str_ref(o), d@),
{
    match o {
        Some(s) => s,
        None => d,
    }
}

pub fn convert_content_item(c: &JsonValue) -> (r: Option<JsonValue>)
    ensures
        opt_view(r) == spec_convert_content_item(c@),
{
    let ctype = str_or(c.str_at("type"), "");
    if is_text_type_exec(ctype) {
        let text = str_or(c.str_at("text"), "");
        Some(JsonValue::obj2("type", JsonValue::from_str("text"), "text", JsonValue::from_str(text)))
    } else if str_eq(ctype, "input_image") {
        let url = str_or(c.str_at("image_url"), "");
        if url.is_empty() {
            None
        } else {
            let source = JsonValue::obj2(
                "type",
                JsonValue::from_str("url"),
                "url",
                JsonValue::from_str(url),
            );
            Some(JsonValue::obj2("type", JsonValue::from_str("image"), "source", source))
        }
    } else if str_eq(ctype, "refusal") {
        let refusal = str_or(c.str_at("refusal"), "Refused");
        let mut v: Vec<char> = Vec::new();
        push_str(&mut v, "[Refusal] ");
        push_str(&mut v, refusal);
        assert(v@ =~= "[Refusal] "@ + refusal@);
        Some(
            JsonValue::obj2(
                "type",
                JsonValue::from_str("text"),
                "text",
                JsonValue::Str(string_from_chars(&v)),
            ),
        )
    } else {
        None
    }
}

pub fn convert_codex_content_array(content: Option<&JsonValue>) -> (r: Option<JsonValue>)
    ensures
        opt_view(r) == spec_convert_codex_content_array(opt_ref_view(content)),
{
    let arr = match content {
        Some(JsonValue::Array(a)) => a,
        _ => {
            return None;
        },
    };
    let ghost iv = items_view(arr@);
    let mut items: Vec<JsonValue> = Vec::new();
    let mut i: usize = 0;
    assert(iv.take(0) =~= Seq::<Json>::empty());
    assert(items_view(items@) =~= Seq::<Json>::empty());
    while i < arr.len()
        invariant
            i <= arr.len(),
            iv == items_view(arr@),
            iv.len() == arr@.len(),
            items_view(items@) == convert_items(iv.take(i as int)),
        decreases arr.len() - i,
    {
        assert(iv.take(i + 1).drop_last() =~= iv.take(i as int));
        assert(iv.take(i + 1).last() == arr@[i as int]@);
        let ghost before = items@;
        match convert_content_item(&arr[i]) {
            Some(x) => {
                let ghost xv = x@;
                items.push(x);
                assert(items@.drop_last() =~= before);
                assert(items_view(items@) =~= items_view(before).push(xv));
            },
            None => {},
        }
        i = i + 1;
    }
    assert(iv.take(arr.len() as int) =~= iv);
    if items.len() == 0 {
        None
    } else {
        Some(JsonValue::array(items))
    }
}

/// The first block of type `tool_use`.
pub open spec fn first_tool_use(items: Seq<Json>) -> Option<Json>
    decreases items.len(),
{
    if items.len() == 0 {
        None
    } else if items[0].str_at("type"@) == Some("tool_use"@) {
        Some(items[0])
    } else {
        first_tool_use(items.drop_first())
    }
}

pub open spec fn spec_extract_first_tool_use(content: Option<Json>) -> Option<Json> {
    match content {
        Some(Json::Array(a)) => first_tool_use(a),
        _ => None,
    }
}

pub fn is_str_eq(o: Option<&str>, lit: &str) -> (r: bool)
    ensures
        r == (opt_str_ref(o) == Some(lit@)),
{
    match o {
        Some(s) => str_eq(s, lit),
        None => false,
    }
}

#[verifier::loop_isolation(false)]
pub fn extract_first_tool_use(content: Option<&JsonValue>) -> (r: Option<JsonValue>)
    ensures
        opt_view(r) == spec_extract_first_tool_use(opt_ref_view(content)),
{
    let arr = match content {
        Some(JsonValue::Array(a)) => a,
        _ => {
            return None;
        },
    };
    let ghost iv = items_view(arr@);
    let mut i: usize = 0;
    assert(iv.skip(0) =~= iv);
    while i < arr.len()
        invariant
            i <= arr.len(),
            iv == items_view(arr@),
            iv.len() == arr@.len(),
            first_tool_use(iv) == first_tool_use(iv.skip(i as int)),
        decreases arr.len() - i,
    {
        assert(iv.skip(i as int).drop_first() =~= iv.skip(i + 1));
        assert(iv.skip(i as int)[0] == arr@[i as int]@);
        assert(iv.skip(i as int).len() > 0);
        if is_str_eq(arr[i].str_at("type"), "tool_use") {
            assert(first_tool_use(iv.skip(i as int)) == Some(arr@[i as int]@));
            return Some(arr[i].deep_clone());
        }
        i = i + 1;
    }
    None
}

/// The first text of a text block that has one.
pub open spec fn first_text(items: Seq<Json>) -> Option<Seq<char>>
    decreases items.len(),
{
    if items.len() == 0 {
        None
    } else if is_text_type(or_str(items[0].str_at("type"@), ""@)) && items[0].str_at("text"@) is Some {
        items[0].str_at("text"@)
    } else {
        first_text(items.drop_first())
    }
}

pub open spec fn spec_extract_text_from_content(item: Json) -> Option<Seq<char>> {
    match item.get("content"@) {
        Some(Json::Array(a)) => first_text(a),
        _ => None,
    }
}

#[verifier::loop_isolation(false)]
pub fn extract_text_from_content(item: &JsonValue) -> (r: Option<String>)
    ensures
        opt_str(r) == spec_extract_text_from_content(item@),
{
    let arr = match item.get("content") {
        Some(JsonValue::Array(a)) => a,
        _ => {
            return None;
        },
    };
    let ghost iv = items_view(arr@);
    let mut i: usize = 0;
    assert(iv.skip(0) =~= iv);
    while i < arr.len()
        invariant
            i <= arr.len(),
            iv == items_view(arr@),
            iv.len() == arr@.len(),
            first_text(iv) == first_text(iv.skip(i as int)),
        decreases arr.len() - i,
    {
        assert(iv.skip(i as int).drop_first() =~= iv.skip(i + 1));
        assert(iv.skip(i as int)[0] == arr@[i as int]@);
        assert(iv.skip(i as int).len() > 0);
        let ctype = str_or(arr[i].str_at("type"), "");
        if is_text_type_exec(ctype) {
            match arr[i].str_at("text") {
                Some(t) => {
                    assert(first_text(iv.skip(i as int)) == Some(t@));
                    return Some(t.to_owned());
                },
                None => {},
            }
        }
        i = i + 1;
    }
    None
}

// ---------------------------------------------------------------------------
// Messages
// ---------------------------------------------------------------------------

/// A Codex message: an assistant message also carries its first `tool_use` block.
pub open spec fn spec_codex_message(
    uuid: Seq<char>,
    session_id: Seq<char>,
    timestamp: Seq<char>,
    message_type: Seq<char>,
    role: Option<Seq<char>>,
    content: Option<Json>,
    model: Option<Seq<char>>,
) -> MessageView {
    MessageView {
        tool_use: if message_type == "assistant"@ {
            spec_extract_first_tool_use(content)
        } else {
            None
        },
        ..spec_provider_message(
            "codex"@,
            uuid,
            session_id,
            timestamp,
            message_type,
            role,
            content,
            model,
        )
    }
}

pub fn build_codex_message(
    uuid: String,
    session_id: &str,
    timestamp: String,
    message_type: &str,
    role: Option<&str>,
    content: Option<JsonValue>,
    model: Option<String>,
) -> (r: ClaudeMessage)
    ensures
        r@ == spec_codex_message(
            uuid@,
            session_id@,
            timestamp@,
            message_type@,
            opt_str_ref(role),
            opt_view(content),
            opt_str(model),
        ),
{
    let tool_use = if str_eq(message_type, "assistant") {
        extract_first_tool_use(content.as_ref())
    } else {
        None
    };
    let mut msg = build_provider_message(
        "codex",
        uuid,
        session_id,
        timestamp,
        message_type,
        role,
        content,
        model,
    );
    msg.tool_use = tool_use;
    msg
}


// ---------------------------------------------------------------------------
// Response items
// ---------------------------------------------------------------------------

pub open spec fn opt_string_ref(o: Option<&String>) -> Option<Seq<char>> {
    match o {
        Some(s) => Some(s@),
        None => None,
    }
}

pub open spec fn opt_msg(o: Option<ClaudeMessage>) -> Option<MessageView> {
    match o {
        Some(m) => Some(m@),
        None => None,
    }
}

/// `value.unwrap_or(Value::Null)`
pub open spec fn or_null(o: Option<Json>) -> Json {
    match o {
        Some(v) => v,
        None => Json::Null,
    }
}

/// The item's own id, or "codex-" and the running count.
pub open spec fn item_uuid(item: Json, counter: u64) -> Seq<char> {
    or_str(item.str_at("id"@), "codex-"@ + decimal(counter as nat))
}

/// The item's non-empty `created_at`, or the time stamp of its line.
pub open spec fn item_timestamp(item: Json, line_ts: Seq<char>) -> Seq<char> {
    match item.str_at("created_at"@) {
        Some(s) => if s.len() > 0 {
            s
        } else {
            line_ts
        },
        None => line_ts,
    }
}

pub open spec fn tool_use_block(id: Seq<char>, name: Seq<char>, input: Json) -> Json {
    jobj4("type"@, jstr("tool_use"@), "id"@, jstr(id), "name"@, jstr(name), "input"@, input)
}

pub open spec fn tool_result_block(id: Seq<char>, output: Json) -> Json {
    jobj3("type"@, jstr("tool_result"@), "tool_use_id"@, jstr(id), "content"@, output)
}

/// The shell command of a `local_shell_call`: an array joined by spaces, or the string.
pub open spec fn spec_shell_command(item: Json) -> Seq<char> {
    let command = match item.get("action"@) {
        Some(a) => a.get("command"@),
        None => None,
    };
    match command {
        Some(Json::Array(arr)) => join_strings(arr, " "@),
        Some(v) => or_str(v.as_str(), ""@),
        None => ""@,
    }
}

/// The text of a `reasoning` item: the texts of its summary joined by newlines.
pub open spec fn spec_reasoning_text(item: Json) -> Seq<char> {
    match item.get("summary"@) {
        Some(Json::Array(arr)) => join(picked_strings(arr, Some("text"@)), "\n"@),
        _ => ""@,
    }
}

/// The id of a web search call: its `call_id`, else its `id`, where that is a string.
pub open spec fn spec_search_id(item: Json, uuid: Seq<char>) -> Seq<char> {
    let v = match item.get("call_id"@) {
        Some(v) => Some(v),
        None => item.get("id"@),
    };
    match v {
        Some(v) => or_str(v.as_str(), uuid),
        None => uuid,
    }
}

/// A Codex `response_item` payload as a viewer message, given the running
/// count after this item; nothing for items without a type, for unknown
/// types and for reasoning without text.
pub open spec fn spec_convert_codex_item(
    item: Json,
    session_id: Seq<char>,
    model: Option<Seq<char>>,
    line_ts: Seq<char>,
    counter: u64,
) -> Option<MessageView> {
    match item.str_at("type"@) {
        None => None,
        Some(t) => {
            let uuid = item_uuid(item, counter);
            let ts = item_timestamp(item, line_ts);
            if t == "message"@ {
                let role = or_str(item.str_at("role"@), "user"@);
                Some(
                    spec_codex_message(
                        uuid,
                        session_id,
                        ts,
                        if role == "user"@ {
                            "user"@
                        } else {
                            "assistant"@
                        },
                        Some(role),
                        spec_convert_codex_content_array(item.get("content"@)),
                        if role == "assistant"@ {
                            model
                        } else {
                            None
                        },
                    ),
                )
            } else if t == "local_shell_call"@ {
                let block = tool_use_block(
                    or_str(item.str_at("call_id"@), ""@),
                    "Bash"@,
                    jobj1("command"@, jstr(spec_shell_command(item))),
                );
                Some(
                    spec_codex_message(
                        uuid,
                        session_id,
                        ts,
                        "assistant"@,
                        Some("assistant"@),
                        Some(Json::Array(seq![block])),
                        model,
                    ),
                )
            } else if t == "function_call"@ {
                let name = spec_map_codex_tool_name(or_str(item.str_at("name"@), "unknown"@));
                let input = spec_normalize_tool_input(
                    name,
                    spec_parse_tool_arguments(item.get("arguments"@)),
                );
                let block = tool_use_block(or_str(item.str_at("call_id"@), ""@), name, input);
                Some(
                    spec_codex_message(
                        uuid,
                        session_id,
                        ts,
                        "assistant"@,
                        Some("assistant"@),
                        Some(Json::Array(seq![block])),
                        model,
                    ),
                )
            } else if t == "function_call_output"@ || t == "custom_tool_call_output"@ {
                let output = spec_normalize_tool_output(or_null(item.get("output"@)));
                let block = tool_result_block(or_str(item.str_at("call_id"@), ""@), output);
                Some(
                    spec_codex_message(
                        uuid,
                        session_id,
                        ts,
                        "user"@,
                        Some("user"@),
                        Some(Json::Array(seq![block])),
                        None,
                    ),
                )
            } else if t == "custom_tool_call"@ {
                let name = or_str(item.str_at("name"@), "custom_tool"@);
                let input = spec_normalize_custom_tool_input(name, or_null(item.get("input"@)));
                let block = tool_use_block(or_str(item.str_at("call_id"@), uuid), name, input);
                Some(
                    spec_codex_message(
                        uuid,
                        session_id,
                        ts,
                        "assistant"@,
                        Some("assistant"@),
                        Some(Json::Array(seq![block])),
                        model,
                    ),
                )
            } else if t == "web_search_call"@ {
                let action = match item.get("action"@) {
                    Some(a) => a,
                    None => Json::Object(Seq::empty()),
                };
                let block = tool_use_block(
                    spec_search_id(item, uuid),
                    "WebSearch"@,
                    spec_normalize_web_search_input(action),
                );
                Some(
                    spec_codex_message(
                        uuid,
                        session_id,
                        ts,
                        "assistant"@,
                        Some("assistant"@),
                        Some(Json::Array(seq![block])),
                        model,
                    ),
                )
            } else if t == "reasoning"@ {
                let text = spec_reasoning_text(item);
                if text.len() == 0 {
                    None
                } else {
                    let block = jobj2("type"@, jstr("thinking"@), "thinking"@, jstr(text));
                    Some(
                        spec_codex_message(
                            uuid,
                            session_id,
                            ts,
                            "assistant"@,
                            Some("assistant"@),
                            Some(Json::Array(seq![block])),
                            model,
                        ),
                    )
                }
            } else {
                None
            }
        },
    }
}

/// The running count after an item: one more for every item with a type.
pub open spec fn spec_item_counter(item: Json, counter: u64) -> u64 {
    if item.str_at("type"@) is Some {
        (counter + 1) as u64
    } else {
        counter
    }
}

fn clone_model(model: Option<&String>) -> (r: Option<String>)
    ensures
        opt_str(r) == opt_string_ref(model),
{
    match model {
        Some(m) => Some(m.clone()),
        None => None,
    }
}

/// "prefix" followed by the decimal text of `n`.
pub fn prefixed_number(prefix: &str, n: u64) -> (r: String)
    ensures
        r@ == prefix@ + decimal(n as nat),
{
    let mut v: Vec<char> = Vec::new();
    push_str(&mut v, prefix);
    push_decimal(&mut v, n);
    assert(v@ =~= prefix@ + decimal(n as nat));
    string_from_chars(&v)
}

fn tool_use_block_exec(id: JsonValue, name: &str, input: JsonValue) -> (r: JsonValue)
    requires
        id@ is Str,
    ensures
        r@ == Json::Array(seq![tool_use_block(id@->Str_0, name@, input@)]),
{
    let block = JsonValue::obj4(
        "type",
        JsonValue::from_str("tool_use"),
        "id",
        id,
        "name",
        JsonValue::from_str(name),
        "input",
        input,
    );
    JsonValue::array1(block)
}

fn item_timestamp_exec(item: &JsonValue, line_timestamp: &str) -> (r: String)
    ensures
        r@ == item_timestamp(item@, line_timestamp@),
{
    match item.str_at("created_at") {
        Some(s) => if !s.is_empty() {
            s.to_owned()
        } else {
            line_timestamp.to_owned()
        },
        None => line_timestamp.to_owned(),
    }
}

fn shell_command_exec(item: &JsonValue) -> (r: String)
    ensures
        r@ == spec_shell_command(item@),
{
    let command = match item.get("action") {
        Some(a) => a.get("command"),
        None => None,
    };
    match command {
        Some(JsonValue::Array(arr)) => join_picked(arr, None, " "),
        Some(v) => str_or(v.as_str(), "").to_owned(),
        None => "".to_owned(),
    }
}

fn reasoning_text_exec(item: &JsonValue) -> (r: String)
    ensures
        r@ == spec_reasoning_text(item@),
{
    match item.get("summary") {
        Some(JsonValue::Array(arr)) => join_picked(arr, Some("text"), "\n"),
        _ => "".to_owned(),
    }
}

fn search_id_exec(item: &JsonValue, uuid: &String) -> (r: String)
    ensures
        r@ == spec_search_id(item@, uuid@),
{
    let v = match item.get("call_id") {
        Some(v) => Some(v),
        None => item.get("id"),
    };
    match v {
        Some(v) => match v.as_str() {
            Some(s) => s.to_owned(),
            None => uuid.clone(),
        },
        None => uuid.clone(),
    }
}

/// Converts a Codex `response_item` payload into a viewer message, counting
/// every item that has a type.
pub fn convert_codex_item(
    item: &JsonValue,
    session_id: &str,
    model: Option<&String>,
    line_timestamp: &str,
    counter: &mut u64,
) -> (r: Option<ClaudeMessage>)
    requires
        *old(counter) < u64::MAX,
    ensures
        *final(counter) == spec_item_counter(item@, *old(counter)),
        opt_msg(r) == spec_convert_codex_item(
            item@,
            session_id@,
            opt_string_ref(model),
            line_timestamp@,
            *final(counter),
        ),
{
    let item_type = match item.str_at("type") {
        Some(t) => t,
        None => {
            return None;
        },
    };
    *counter = *counter + 1;
    let uuid: String = match item.str_at("id") {
        Some(id) => id.to_owned(),
        None => prefixed_number("codex-", *counter),
    };
    let timestamp = item_timestamp_exec(item, line_timestamp);
    if str_eq(item_type, "message") {
        let role = str_or(item.str_at("role"), "user");
        let content = convert_codex_content_array(item.get("content"));
        let is_user = str_eq(role, "user");
        let message_model = if str_eq(role, "assistant") {
            clone_model(model)
        } else {
            None
        };
        Some(
            build_codex_message(
                uuid,
                session_id,
                timestamp,
                if is_user {
                    "user"
                } else {
                    "assistant"
                },
                Some(role),
                content,
                message_model,
            ),
        )
    } else if str_eq(item_type, "local_shell_call") {
        let command = shell_command_exec(item);
        let call_id = JsonValue::from_str(str_or(item.str_at("call_id"), ""));
        let input = JsonValue::obj1("command", JsonValue::Str(command));
        let content = tool_use_block_exec(call_id, "Bash", input);
        Some(
            build_codex_message(
                uuid,
                session_id,
                timestamp,
                "assistant",
                Some("assistant"),
                Some(content),
                clone_model(model),
            ),
        )
    } else if str_eq(item_type, "function_call") {
        let raw_name = str_or(item.str_at("name"), "unknown");
        let name = map_codex_tool_name(raw_name);
        let call_id = JsonValue::from_str(str_or(item.str_at("call_id"), ""));
        let mut input = parse_tool_arguments(item.get("arguments"));
        normalize_tool_input(name, &mut input);
        let content = tool_use_block_exec(call_id, name, input);
        Some(
            build_codex_message(
                uuid,
                session_id,
                timestamp,
                "assistant",
                Some("assistant"),
                Some(content),
                clone_model(model),
            ),
        )
    } else if str_eq(item_type, "function_call_output") || str_eq(
        item_type,
        "custom_tool_call_output",
    ) {
        let raw_output = match item.get("output") {
            Some(v) => v.deep_clone(),
            None => JsonValue::Null,
        };
        let output = normalize_tool_output(raw_output);
        let call_id = JsonValue::from_str(str_or(item.str_at("call_id"), ""));
        let block = JsonValue::obj3(
            "type",
            JsonValue::from_str("tool_result"),
            "tool_use_id",
            call_id,
            "content",
            output,
        );
        let content = JsonValue::array1(block);
        Some(
            build_codex_message(
                uuid,
                session_id,
                timestamp,
                "user",
                Some("user"),
                Some(content),
                None,
            ),
        )
    } else if str_eq(item_type, "custom_tool_call") {
        let name = str_or(item.str_at("name"), "custom_tool");
        let call_id = match item.str_at("call_id") {
            Some(c) => JsonValue::from_str(c),
            None => JsonValue::Str(uuid.clone()),
        };
        let mut input = match item.get("input") {
            Some(v) => v.deep_clone(),
            None => JsonValue::Null,
        };
        normalize_custom_tool_input(name, &mut input);
        let content = tool_use_block_exec(call_id, name, input);
        Some(
            build_codex_message(
                uuid,
                session_id,
                timestamp,
                "assistant",
                Some("assistant"),
                Some(content),
                clone_model(model),
            ),
        )
    } else if str_eq(item_type, "web_search_call") {
        let search_id = JsonValue::Str(search_id_exec(item, &uuid));
        let action = match item.get("action") {
            Some(a) => a.deep_clone(),
            None => JsonValue::empty_object(),
        };
        let input = normalize_web_search_input(action);
        let content = tool_use_block_exec(search_id, "WebSearch", input);
        Some(
            build_codex_message(
                uuid,
                session_id,
                timestamp,
                "assistant",
                Some("assistant"),
                Some(content),
                clone_model(model),
            ),
        )
    } else if str_eq(item_type, "reasoning") {
        let text = reasoning_text_exec(item);
        if text.as_str().is_empty() {
            return None;
        }
        let block = JsonValue::obj2(
            "type",
            JsonValue::from_str("thinking"),
            "thinking",
            JsonValue::Str(text),
        );
        let content = JsonValue::array1(block);
        Some(
            build_codex_message(
                uuid,
                session_id,
                timestamp,
                "assistant",
                Some("assistant"),
                Some(content),
                clone_model(model),
            ),
        )
    } else {
        None
    }
}

} // verus!
