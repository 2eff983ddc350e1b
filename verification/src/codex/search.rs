use vstd::prelude::*;

use crate::codex::classify::{spec_is_git_commit_worker, spec_is_permissions_session};
use crate::codex::index::{
    opt_filters, session_flags, should_hide_git_commit_subagent_sessions,
    should_hide_permissions_sessions, spec_hide_git_commit, spec_hide_permissions,
    CodexSessionFilters,
};
use crate::codex::paths::{is_rollout_jsonl, spec_is_rollout_jsonl};
use crate::codex::rollout::{load_messages, msgs_view, spec_rollout_messages};
use crate::json::{simd_json_parsed, Json};
use crate::models::{ClaudeMessage, MessageView};
use crate::search::{content_matches_scope, parse_rfc3339_utc, rfc3339_instant, scope_matches, Matcher, SearchScope};
use crate::sort::{first_k_positions, keys_view, lemma_top_all_distinct, newest_first_k, pick_in_order, reorder, KeyView, SortKey};
use crate::text::chars_of;

verus! {

/// One file found under the session directories, for a search.
pub struct SearchFile {
    pub path: String,
    /// Its leading lines as text, up to the first that cannot be read.
    pub head_lines: Vec<String>,
    /// Its lines, or nothing where the session could not be loaded.
    pub lines: Option<Vec<Vec<u8>>>,
}

/// The messages of one file whose content matches the query in the scope.
pub open spec fn matching_in(ms: Seq<MessageView>, p: Seq<char>, scope: SearchScope) -> Seq<MessageView>
    decreases ms.len(),
{
    if ms.len() == 0 {
        Seq::empty()
    } else {
        let rest = matching_in(ms.drop_last(), p, scope);
        match ms.last().content {
            Some(c) => if scope_matches(c, p, scope) {
                rest.push(ms.last())
            } else {
                rest
            },
            None => rest,
        }
    }
}

/// The message's content matches the query in the scope.
pub open spec fn content_in_scope(m: MessageView, p: Seq<char>, scope: SearchScope) -> bool {
    match m.content {
        Some(c) => scope_matches(c, p, scope),
        None => false,
    }
}

/// The file is searched: a rollout file that the filters do not hide and
/// whose session could be loaded.
pub open spec fn file_searched(file: SearchFile, f: Option<CodexSessionFilters>) -> bool {
    &&& spec_is_rollout_jsonl(file.path@)
    &&& !(spec_hide_permissions(f) && spec_is_permissions_session(file.head_lines@))
    &&& !(spec_hide_git_commit(f) && spec_is_git_commit_worker(file.head_lines@))
    &&& file.lines is Some
}

pub open spec fn file_messages(file: SearchFile) -> Seq<MessageView> {
    match file.lines {
        Some(lines) => spec_rollout_messages(
            lines@.map_values(|l: Vec<u8>| simd_json_parsed(l@)),
        ),
        None => Seq::empty(),
    }
}

/// The matching messages of all searched files, file by file.
pub open spec fn search_candidates(
    files: Seq<SearchFile>,
    p: Seq<char>,
    scope: SearchScope,
    f: Option<CodexSessionFilters>,
) -> Seq<MessageView>
    decreases files.len(),
{
    if files.len() == 0 {
        Seq::empty()
    } else {
        let rest = search_candidates(files.drop_last(), p, scope, f);
        if file_searched(files.last(), f) {
            rest + matching_in(file_messages(files.last()), p, scope)
        } else {
            rest
        }
    }
}

/// Messages are ordered newest first by their time where it is an RFC 3339
/// date (these before the others), else by the text of their time.
pub open spec fn message_keys(ms: Seq<MessageView>) -> Seq<KeyView> {
    ms.map_values(|m: MessageView| KeyView { instant: rfc3339_instant(m.timestamp), text: m.timestamp })
}

/// The first `limit` matching messages, newest first.
pub open spec fn spec_search(
    files: Seq<SearchFile>,
    p: Seq<char>,
    limit: usize,
    scope: SearchScope,
    f: Option<CodexSessionFilters>,
) -> Seq<MessageView> {
    let c = search_candidates(files, p, scope, f);
    reorder(c, newest_first_k(message_keys(c), limit as int))
}

fn push_matching(out: &mut Vec<ClaudeMessage>, messages: Vec<ClaudeMessage>, matcher: &Matcher, scope: SearchScope)
    ensures
        msgs_view(final(out)@) == msgs_view(old(out)@) + matching_in(msgs_view(messages@), matcher.pattern(), scope),
{
    let ghost mv = msgs_view(messages@);
    let ghost start = msgs_view(out@);
    let n = messages.len();
    let mut rest = messages;
    let mut rev: Vec<ClaudeMessage> = Vec::new();
    while rest.len() > 0
        invariant
            rest.len() + rev.len() == n,
            mv.len() == n,
            forall|j: int| 0 <= j < rest.len() ==> #[trigger] rest@[j]@ == mv[j],
            forall|j: int| 0 <= j < rev.len() ==> #[trigger] rev@[j]@ == mv[n - 1 - j],
        decreases rest.len(),
    {
        assert(rest@[rest.len() - 1]@ == mv[rest.len() - 1]);
        let ghost old_rev = rev@;
        let m = rest.pop().unwrap();
        rev.push(m);
        assert(forall|j: int| 0 <= j < old_rev.len() ==> rev@[j] == old_rev[j]);
    }
    let mut k: usize = 0;
    assert(mv.take(0) =~= Seq::<MessageView>::empty());
    assert(msgs_view(out@) =~= start + matching_in(mv.take(0), matcher.pattern(), scope));
    while rev.len() > 0
        invariant
            k + rev.len() == n,
            mv.len() == n,
            forall|j: int| 0 <= j < rev.len() ==> #[trigger] rev@[j]@ == mv[n - 1 - j],
            msgs_view(out@) == start + matching_in(mv.take(k as int), matcher.pattern(), scope),
        decreases rev.len(),
    {
        assert(rev@[rev.len() - 1]@ == mv[k as int]);
        assert(mv.take(k + 1).drop_last() =~= mv.take(k as int));
        assert(mv.take(k + 1).last() == mv[k as int]);
        let ghost old_rev = rev@;
        let m = rev.pop().unwrap();
        assert(forall|j: int| 0 <= j < rev.len() ==> rev@[j] == old_rev[j]);
        let hit = match &m.content {
            Some(c) => content_matches_scope(c, matcher, scope),
            None => false,
        };
        if hit {
            let ghost before = out@;
            out.push(m);
            assert(msgs_view(out@) =~= msgs_view(before).push(m@));
        }
        k = k + 1;
    }
    assert(mv.take(n as int) =~= mv);
}

/// Searches the Codex sessions: the first `limit` messages, newest first,
/// whose content matches the query (`matcher`) in the scope, among the
/// rollout files that the filters do not hide. Without a Codex home
/// (`files` is `None`) it is an error.
pub fn search_with_filters(
    files: Option<&Vec<SearchFile>>,
    matcher: &Matcher,
    limit: usize,
    search_scope: SearchScope,
    filters: Option<&CodexSessionFilters>,
) -> (r: Result<Vec<ClaudeMessage>, String>)
    ensures
        files is None ==> (r matches Err(e) && e@ == "Codex not found"@),
        files matches Some(fs) ==> (r matches Ok(v) && msgs_view(v@) == spec_search(
            fs@,
            matcher.pattern(),
            limit,
            search_scope,
            opt_filters(filters),
        )),
        r matches Ok(v) ==> v.len() <= limit && (forall|j: int|
            0 <= j < v.len() ==> content_in_scope(#[trigger] v@[j]@, matcher.pattern(), search_scope))
            && (forall|a: int, b: int|
            0 <= a < b < v.len() ==> crate::sort::key_order(
                #[trigger] message_keys(msgs_view(v@))[a],
                #[trigger] message_keys(msgs_view(v@))[b],
            ) >= 0),
{
    let files = match files {
        Some(f) => f,
        None => {
            return Err("Codex not found".to_owned());
        },
    };
    let ghost p = matcher.pattern();
    let ghost f = opt_filters(filters);
    let mut results: Vec<ClaudeMessage> = Vec::new();
    let mut i: usize = 0;
    assert(files@.take(0) =~= Seq::<SearchFile>::empty());
    assert(msgs_view(results@) =~= Seq::<MessageView>::empty());
    while i < files.len()
        invariant
            i <= files.len(),
            p == matcher.pattern(),
            f == opt_filters(filters),
            msgs_view(results@) == search_candidates(files@.take(i as int), p, search_scope, f),
        decreases files.len() - i,
    {
        assert(files@.take(i + 1).drop_last() =~= files@.take(i as int));
        assert(files@.take(i + 1).last() == files@[i as int]);
        let file = &files[i];
        if is_rollout_jsonl(file.path.as_str()) {
            let flags = session_flags(&file.head_lines);
            let hidden = (should_hide_permissions_sessions(filters) && flags.is_permissions) || (
            should_hide_git_commit_subagent_sessions(filters) && flags.is_git_commit_worker);
            if !hidden {
                match &file.lines {
                    Some(lines) => {
                        let messages = load_messages(lines);
                        push_matching(&mut results, messages, matcher, search_scope);
                    },
                    None => {},
                }
            }
        }
        i = i + 1;
    }
    assert(files@.take(files.len() as int) =~= files@);
    let ghost cands = msgs_view(results@);
    let mut keys: Vec<SortKey> = Vec::new();
    let mut j: usize = 0;
    while j < results.len()
        invariant
            j <= results.len(),
            keys.len() == j,
            cands == msgs_view(results@),
            forall|a: int| 0 <= a < j ==> #[trigger] keys@[a]@ == message_keys(cands)[a],
        decreases results.len() - j,
    {
        let ts = results[j].timestamp.as_str();
        keys.push(SortKey { instant: parse_rfc3339_utc(ts), text: chars_of(ts) });
        j = j + 1;
    }
    assert(keys_view(keys@) =~= message_keys(cands));
    let order = first_k_positions(&keys, limit);
    proof {
        lemma_top_k_distinct(keys_view(keys@), keys@.len() as int, limit as int, order@);
    }
    let ghost rs = results@;
    let picked = pick_in_order(results, &order);
    assert(msgs_view(picked@) =~= reorder(cands, order@));
    proof {
        lemma_candidates_match(files@, p, search_scope, f);
        crate::sort::lemma_reorder_sorted(keys_view(keys@), keys@.len() as int, limit as int, order@);
        let pv = msgs_view(picked@);
        assert forall|j: int| 0 <= j < picked.len() implies content_in_scope(#[trigger] picked@[j]@, p, search_scope) by {
            assert(picked@[j]@ == cands[order@[j] as int]);
        }
        assert forall|a: int, b: int| 0 <= a < b < picked.len() implies crate::sort::key_order(
            #[trigger] message_keys(pv)[a],
            #[trigger] message_keys(pv)[b],
        ) >= 0 by {
            assert(pv[a] == cands[order@[a] as int]);
            assert(pv[b] == cands[order@[b] as int]);
            assert(message_keys(pv)[a] == keys_view(keys@)[order@[a] as int]);
            assert(message_keys(pv)[b] == keys_view(keys@)[order@[b] as int]);
        }
    }
    Ok(picked)
}

proof fn lemma_matching_in(ms: Seq<MessageView>, p: Seq<char>, scope: SearchScope)
    ensures
        forall|i: int|
            0 <= i < matching_in(ms, p, scope).len() ==> content_in_scope(
                #[trigger] matching_in(ms, p, scope)[i],
                p,
                scope,
            ),
    decreases ms.len(),
{
    if ms.len() > 0 {
        lemma_matching_in(ms.drop_last(), p, scope);
        let rest = matching_in(ms.drop_last(), p, scope);
        let r = matching_in(ms, p, scope);
        assert forall|i: int| 0 <= i < r.len() implies content_in_scope(#[trigger] r[i], p, scope) by {
            if i < rest.len() {
                assert(r[i] == rest[i]);
            }
        }
    }
}

proof fn lemma_candidates_match(
    files: Seq<SearchFile>,
    p: Seq<char>,
    scope: SearchScope,
    f: Option<CodexSessionFilters>,
)
    ensures
        forall|i: int|
            0 <= i < search_candidates(files, p, scope, f).len() ==> content_in_scope(
                #[trigger] search_candidates(files, p, scope, f)[i],
                p,
                scope,
            ),
    decreases files.len(),
{
    if files.len() > 0 {
        lemma_candidates_match(files.drop_last(), p, scope, f);
        let rest = search_candidates(files.drop_last(), p, scope, f);
        let mine = matching_in(file_messages(files.last()), p, scope);
        lemma_matching_in(file_messages(files.last()), p, scope);
        let r = search_candidates(files, p, scope, f);
        assert forall|i: int| 0 <= i < r.len() implies content_in_scope(#[trigger] r[i], p, scope) by {
            if i < rest.len() {
                assert(r[i] == rest[i]);
            } else {
                assert(r[i] == mine[i - rest.len()]);
            }
        }
    }
}

proof fn lemma_top_k_distinct(keys: Seq<KeyView>, n: int, k: int, o: Seq<usize>)
    requires
        crate::sort::is_top(keys, n, k, o),
    ensures
        forall|a: int| 0 <= a < o.len() ==> #[trigger] o[a] < n,
        forall|a: int, b: int| 0 <= a < b < o.len() ==> #[trigger] o[a] != #[trigger] o[b],
{
    assert forall|a: int, b: int| 0 <= a < b < o.len() implies #[trigger] o[a] != #[trigger] o[b] by {
        crate::sort::lemma_in_order_distinct(keys, o, a, b);
    }
}

/// The scope is applied before the limit: a search gives the first `limit`
/// of the matching messages (all of them where fewer match), and only
/// matching messages.
pub proof fn law_search_limit_after_scope(
    files: Seq<SearchFile>,
    p: Seq<char>,
    limit: usize,
    scope: SearchScope,
    f: Option<CodexSessionFilters>,
)
    requires
        search_candidates(files, p, scope, f).len() <= usize::MAX,
    ensures
        ({
            let c = search_candidates(files, p, scope, f);
            let r = spec_search(files, p, limit, scope, f);
            &&& r.len() == if c.len() < limit {
                c.len() as int
            } else {
                limit as int
            }
            &&& forall|j: int| 0 <= j < r.len() ==> content_in_scope(#[trigger] r[j], p, scope)
        }),
{
    let c = search_candidates(files, p, scope, f);
    let keys = message_keys(c);
    crate::sort::lemma_top_exists(keys, keys.len() as int, limit as int);
    let o = newest_first_k(keys, limit as int);
    assert(crate::sort::is_top(keys, keys.len() as int, limit as int, o));
    lemma_candidates_match(files, p, scope, f);
    let r = spec_search(files, p, limit, scope, f);
    assert forall|j: int| 0 <= j < r.len() implies content_in_scope(#[trigger] r[j], p, scope) by {
        assert(r[j] == c[o[j] as int]);
    }
}

} // verus!
