use vstd::prelude::*;

use crate::codex::convert::{extract_text_from_content, spec_extract_text_from_content};
use crate::json::{group_json_view, opt_ref_view, serde_json_parsed, Json, JsonValue};
use crate::text::{contains, str_contains, str_eq};

verus! {

broadcast use group_json_view;

/// How many leading lines decide whether a session is a permissions review.
pub const PERMISSION_SCAN_LINES: usize = 20;

/// How many leading lines are read for the git-commit worker prompt.
pub const GIT_COMMIT_SCAN_LINES: usize = 120;

/// `value.pointer("/a/b/c")` for three object keys.
pub open spec fn at3(v: Json, a: Seq<char>, b: Seq<char>, c: Seq<char>) -> Option<Json> {
    match v.get(a) {
        Some(x) => match x.get(b) {
            Some(y) => y.get(c),
            None => None,
        },
        None => None,
    }
}

/// `value.pointer("/a/b")` for two object keys.
pub open spec fn at2(v: Json, a: Seq<char>, b: Seq<char>) -> Option<Json> {
    match v.get(a) {
        Some(x) => x.get(b),
        None => None,
    }
}

pub open spec fn opt_as_str(o: Option<Json>) -> Option<Seq<char>> {
    match o {
        Some(v) => v.as_str(),
        None => None,
    }
}

/// The session-meta payload of a guardian review: a guardian subagent, or the
/// guardian's instructions.
pub open spec fn is_permission_payload(payload: Json) -> bool {
    opt_as_str(at3(payload, "source"@, "subagent"@, "other"@)) == Some("guardian"@) || match opt_as_str(
        at2(payload, "base_instructions"@, "text"@),
    ) {
        Some(t) => contains(t, "You are judging one planned coding-agent action"@),
        None => false,
    }
}

pub open spec fn is_session_meta(v: Json) -> bool {
    v.str_at("type"@) == Some("session_meta"@)
}

/// The first session-meta line among `lines` decides; without one, no.
pub open spec fn first_meta_is_permission(lines: Seq<Option<Json>>) -> bool
    decreases lines.len(),
{
    if lines.len() == 0 {
        false
    } else {
        match lines[0] {
            Some(v) => if is_session_meta(v) {
                match v.get("payload"@) {
                    Some(p) => is_permission_payload(p),
                    None => false,
                }
            } else {
                first_meta_is_permission(lines.drop_first())
            },
            None => first_meta_is_permission(lines.drop_first()),
        }
    }
}

/// The lines as JSON: nothing for a line that is no JSON.
pub open spec fn parsed_lines(lines: Seq<String>) -> Seq<Option<Json>> {
    lines.map_values(|l: String| serde_json_parsed(l@))
}

/// The leading lines that are read.
pub open spec fn head(lines: Seq<String>, n: int) -> Seq<String> {
    if lines.len() <= n {
        lines
    } else {
        lines.take(n)
    }
}

/// Whether a rollout file (given its lines as read) records a permissions
/// (guardian) review: the session meta among its first lines says so.
pub open spec fn spec_is_permissions_session(lines: Seq<String>) -> bool {
    first_meta_is_permission(parsed_lines(head(lines, PERMISSION_SCAN_LINES as int)))
}

fn permission_payload(payload: &JsonValue) -> (r: bool)
    ensures
        r == is_permission_payload(payload@),
{
    let guardian = match payload.get("source") {
        Some(s) => match s.get("subagent") {
            Some(sa) => match sa.get("other") {
                Some(o) => match o.as_str() {
                    Some(name) => str_eq(name, "guardian"),
                    None => false,
                },
                None => false,
            },
            None => false,
        },
        None => false,
    };
    let instructions = match payload.get("base_instructions") {
        Some(b) => match b.get("text") {
            Some(t) => match t.as_str() {
                Some(text) => str_contains(text, "You are judging one planned coding-agent action"),
                None => false,
            },
            None => false,
        },
        None => false,
    };
    guardian || instructions
}

/// Whether a rollout file, given its lines as read (up to the first that
/// cannot be read), records a permissions review.
pub fn is_permissions_approval_session(lines: &Vec<String>) -> (r: bool)
    ensures
        r == spec_is_permissions_session(lines@),
{
    let n: usize = if lines.len() <= PERMISSION_SCAN_LINES {
        lines.len()
    } else {
        PERMISSION_SCAN_LINES
    };
    let ghost pl = parsed_lines(head(lines@, PERMISSION_SCAN_LINES as int));
    assert(pl.len() == n);
    let mut i: usize = 0;
    assert(pl.skip(0) =~= pl);
    while i < n
        invariant
            i <= n,
            n <= lines.len(),
            pl.len() == n,
            pl == parsed_lines(head(lines@, PERMISSION_SCAN_LINES as int)),
            forall|j: int| 0 <= j < n ==> #[trigger] pl[j] == serde_json_parsed(lines@[j]@),
            first_meta_is_permission(pl) == first_meta_is_permission(pl.skip(i as int)),
        decreases n - i,
    {
        assert(pl.skip(i as int).drop_first() =~= pl.skip(i + 1));
        assert(pl.skip(i as int)[0] == pl[i as int]);
        match JsonValue::parse_text(lines[i].as_str()) {
            Some(v) => {
                if crate::codex::convert::is_str_eq(v.str_at("type"), "session_meta") {
                    return match v.get("payload") {
                        Some(p) => permission_payload(p),
                        None => false,
                    };
                }
            },
            None => {},
        }
        i = i + 1;
    }
    false
}

/// What the scan for a git-commit worker has seen: whether the session meta
/// marks a subagent worker, whether a user prompt names the skill, and
/// whether the scan has stopped at that prompt.
pub struct WorkerScan {
    pub worker: bool,
    pub prompt: bool,
    pub done: bool,
}

/// A session meta marks a worker: a spawned thread, or a subagent thread in
/// the worker role.
pub open spec fn is_worker_payload(payload: Json) -> bool {
    at3(payload, "source"@, "subagent"@, "thread_spawn"@) is Some || (payload.str_at(
        "thread_source"@,
    ) == Some("subagent"@) && payload.str_at("agent_role"@) == Some("worker"@))
}

/// One line of the scan.
pub open spec fn spec_worker_step(st: WorkerScan, line: Option<Json>) -> WorkerScan {
    if st.done {
        st
    } else {
        match line {
            None => st,
            Some(v) => if is_session_meta(v) {
                match v.get("payload"@) {
                    Some(p) => WorkerScan { worker: is_worker_payload(p), ..st },
                    None => st,
                }
            } else {
                match v.get("payload"@) {
                    Some(p) => if p.str_at("type"@) == Some("message"@) && p.str_at("role"@) == Some(
                        "user"@,
                    ) {
                        match spec_extract_text_from_content(p) {
                            Some(text) => {
                                let found = contains(text, "ajk-git-commit"@);
                                WorkerScan { prompt: found, done: found, ..st }
                            },
                            None => st,
                        }
                    } else {
                        st
                    },
                    None => st,
                }
            },
        }
    }
}

pub open spec fn spec_worker_fold(lines: Seq<Option<Json>>) -> WorkerScan
    decreases lines.len(),
{
    if lines.len() == 0 {
        WorkerScan { worker: false, prompt: false, done: false }
    } else {
        spec_worker_step(spec_worker_fold(lines.drop_last()), lines.last())
    }
}

/// Whether a rollout file (given its lines as read) is an ajk-git-commit
/// subagent worker: among its first lines the session meta marks a worker and
/// a user prompt names the skill.
pub open spec fn spec_is_git_commit_worker(lines: Seq<String>) -> bool {
    let st = spec_worker_fold(parsed_lines(head(lines, GIT_COMMIT_SCAN_LINES as int)));
    st.worker && st.prompt
}

fn worker_payload(payload: &JsonValue) -> (r: bool)
    ensures
        r == is_worker_payload(payload@),
{
    let spawn = match payload.get("source") {
        Some(s) => match s.get("subagent") {
            Some(sa) => sa.get("thread_spawn").is_some(),
            None => false,
        },
        None => false,
    };
    spawn || (crate::codex::convert::is_str_eq(payload.str_at("thread_source"), "subagent")
        && crate::codex::convert::is_str_eq(payload.str_at("agent_role"), "worker"))
}

proof fn lemma_worker_done(lines: Seq<Option<Json>>, i: int)
    requires
        0 <= i <= lines.len(),
        spec_worker_fold(lines.take(i)).done,
    ensures
        spec_worker_fold(lines) == spec_worker_fold(lines.take(i)),
    decreases lines.len() - i,
{
    if i < lines.len() {
        assert(lines.take(i + 1).drop_last() =~= lines.take(i));
        lemma_worker_done(lines, i + 1);
    } else {
        assert(lines.take(i) =~= lines);
    }
}

/// Whether a rollout file, given its lines as read (up to the first that
/// cannot be read), is an ajk-git-commit subagent worker.
pub fn is_ajk_git_commit_subagent_session(lines: &Vec<String>) -> (r: bool)
    ensures
        r == spec_is_git_commit_worker(lines@),
{
    let n: usize = if lines.len() <= GIT_COMMIT_SCAN_LINES {
        lines.len()
    } else {
        GIT_COMMIT_SCAN_LINES
    };
    let ghost pl = parsed_lines(head(lines@, GIT_COMMIT_SCAN_LINES as int));
    assert(pl.len() == n);
    let mut worker = false;
    let mut prompt = false;
    let mut i: usize = 0;
    assert(pl.take(0) =~= Seq::<Option<Json>>::empty());
    while i < n
        invariant
            i <= n,
            n <= lines.len(),
            pl.len() == n,
            pl == parsed_lines(head(lines@, GIT_COMMIT_SCAN_LINES as int)),
            forall|j: int| 0 <= j < n ==> #[trigger] pl[j] == serde_json_parsed(lines@[j]@),
            spec_worker_fold(pl.take(i as int)) == (WorkerScan { worker, prompt, done: false }),
        decreases n - i,
    {
        assert(pl.take(i + 1).drop_last() =~= pl.take(i as int));
        assert(pl.take(i + 1).last() == pl[i as int]);
        match JsonValue::parse_text(lines[i].as_str()) {
            Some(v) => {
                if crate::codex::convert::is_str_eq(v.str_at("type"), "session_meta") {
                    match v.get("payload") {
                        Some(p) => {
                            worker = worker_payload(p);
                        },
                        None => {},
                    }
                } else {
                    match v.get("payload") {
                        Some(p) => {
                            if crate::codex::convert::is_str_eq(p.str_at("type"), "message")
                                && crate::codex::convert::is_str_eq(p.str_at("role"), "user") {
                                match extract_text_from_content(p) {
                                    Some(text) => {
                                        prompt = str_contains(text.as_str(), "ajk-git-commit");
                                        if prompt {
                                            proof {
                                                lemma_worker_done(pl, i + 1);
                                            }
                                            return worker;
                                        }
                                    },
                                    None => {},
                                }
                            }
                        },
                        None => {},
                    }
                }
            },
            None => {},
        }
        i = i + 1;
    }
    assert(pl.take(n as int) =~= pl);
    worker && prompt
}

} // verus!
