use vstd::prelude::*;

use crate::codex::convert::or_str;
use crate::codex::index::{
    cached_view, group_pos, spec_filtered_groups, sessions_of_cwd, spec_build_index, spec_cache_hit, spec_load,
    spec_filter_projects, spec_filter_sessions, spec_scan, spec_session_allowed,
    spec_session_flags, spec_should_apply, spec_target_cwd, CodexDisk, CodexSessionFilters, IndexView,
};
use crate::codex::rollout::{spec_rollout_fold, spec_rollout_messages, spec_rollout_step, RolloutState};
use crate::codex::threads::{spec_keep_title, spec_title_line, spec_titles_fold, title_pos, TitleEntry};
use crate::codex::titles::spec_truncate_summary_text;
use crate::json::{serde_json_parsed, simd_json_parsed, Json};
use crate::models::SessionView;
use crate::sort::text_order;
use crate::text::trim;

verus! {

/// A project's path leads back to its working directory: loading the
/// sessions of `codex://{cwd}` looks up `cwd`.
pub proof fn law_project_path_round_trip(cwd: Seq<char>)
    ensures
        spec_target_cwd("codex://"@ + cwd) == cwd,
{
    reveal_strlit("codex://");
    let p = "codex://"@ + cwd;
    assert(p.take(8) =~= "codex://"@);
    assert(p.skip(8) =~= cwd);
}

/// After a scan builds an index, a session load for the same Codex home,
/// while the thread title index is unchanged, reads the kept index.
pub proof fn law_scan_then_load_uses_index(
    old_cache: Option<IndexView>,
    disk: CodexDisk,
    hss: Seq<Seq<Seq<String>>>,
    f: Option<CodexSessionFilters>,
)
    requires
        spec_build_index(disk) is Ok,
    ensures
        spec_cache_hit(
            spec_scan(old_cache, disk, hss, f).1,
            disk.base_path@,
            disk.thread_index_modified,
        ) == Some(spec_build_index(disk)->Ok_0),
{
}

/// After the index cache is invalidated, the next load of a project's
/// sessions uses no index kept before: it builds one from the files as
/// `read_disk` reads them then (and keeps that one).
pub proof fn law_load_after_invalidate_builds_afresh(
    base_path: Seq<char>,
    thread_index_modified: Option<u128>,
    project_path: Seq<char>,
    disk: CodexDisk,
    hs: Seq<Seq<String>>,
    f: Option<CodexSessionFilters>,
)
    ensures
        spec_cache_hit(None, base_path, thread_index_modified) is None,
        spec_load(None, Some(base_path), thread_index_modified, project_path, disk, hs, f)
            == crate::codex::index::spec_load_built(
            None,
            disk,
            spec_target_cwd(project_path),
            hs,
            f,
        ),
{
}

/// With the master switch off, the filters leave every session in the list,
/// whatever the files hold.
pub proof fn law_disabled_filters_keep_sessions(
    s: Seq<SessionView>,
    hs: Seq<Seq<String>>,
    f: CodexSessionFilters,
)
    requires
        !f.enabled,
    ensures
        spec_filter_sessions(s, hs, Some(f)) == s,
    decreases s.len(),
{
    if s.len() > 0 {
        law_disabled_filters_keep_sessions(s.drop_last(), hs.drop_last(), f);
        assert(s.drop_last().push(s.last()) =~= s);
    } else {
        assert(s =~= Seq::<SessionView>::empty());
    }
}

/// With the master switch off, the project list is the index's own.
pub proof fn law_disabled_filters_keep_projects(
    ix: IndexView,
    hss: Seq<Seq<Seq<String>>>,
    f: CodexSessionFilters,
)
    requires
        !f.enabled,
    ensures
        spec_filter_projects(ix, hss, Some(f)) == ix.projects,
{
}

/// Filtering only removes sessions: each kept session is one of the list's,
/// of a kind the filters do not hide, going by the leading lines of its file
/// as read.
pub proof fn law_filter_keeps_allowed(
    s: Seq<SessionView>,
    hs: Seq<Seq<String>>,
    f: Option<CodexSessionFilters>,
    j: int,
)
    requires
        hs.len() == s.len(),
        0 <= j < spec_filter_sessions(s, hs, f).len(),
    ensures
        spec_filter_sessions(s, hs, f).len() <= s.len(),
        exists|i: int|
            0 <= i < s.len() && #[trigger] s[i] == spec_filter_sessions(s, hs, f)[j] && (
            spec_should_apply(f) ==> spec_session_allowed(spec_session_flags(hs[i]), f)),
    decreases s.len(),
{
    lemma_filter_len(s, hs, f);
    let r = spec_filter_sessions(s, hs, f);
    let rest = spec_filter_sessions(s.drop_last(), hs.drop_last(), f);
    lemma_filter_len(s.drop_last(), hs.drop_last(), f);
    if j < rest.len() {
        law_filter_keeps_allowed(s.drop_last(), hs.drop_last(), f, j);
        let i = choose|i: int|
            0 <= i < s.drop_last().len() && #[trigger] s.drop_last()[i] == rest[j] && (
            spec_should_apply(f) ==> spec_session_allowed(
                spec_session_flags(hs.drop_last()[i]),
                f,
            ));
        assert(s[i] == s.drop_last()[i]);
        assert(hs[i] == hs.drop_last()[i]);
        assert(r[j] == rest[j]);
    } else {
        assert(s[s.len() - 1] == r[j]);
        assert(hs[s.len() - 1] == hs.last());
    }
}

proof fn lemma_filter_len(s: Seq<SessionView>, hs: Seq<Seq<String>>, f: Option<CodexSessionFilters>)
    ensures
        spec_filter_sessions(s, hs, f).len() <= s.len(),
    decreases s.len(),
{
    if s.len() > 0 {
        lemma_filter_len(s.drop_last(), hs.drop_last(), f);
    }
}

/// A user or agent message event only repeats a response item: reading it
/// changes nothing.
pub proof fn law_duplicate_events_ignored(st: RolloutState, line: Json)
    requires
        or_str(line.str_at("type"@), ""@) == "event_msg"@,
        line.get("payload"@) matches Some(p) && (p.str_at("type"@) == Some("user_message"@)
            || p.str_at("type"@) == Some("agent_message"@)),
    ensures
        spec_rollout_step(st, Some(line)) == st,
{
    reveal_strlit("event_msg");
    reveal_strlit("session_meta");
    reveal_strlit("turn_context");
    reveal_strlit("response_item");
    assert("event_msg"@.len() == 9);
    assert("session_meta"@.len() == 12);
    assert("turn_context"@.len() == 12);
    assert("response_item"@.len() == 13);
    assert("event_msg"@ != "session_meta"@);
    assert("event_msg"@ != "turn_context"@);
    assert("event_msg"@ != "response_item"@);
}

/// The payload of a line is a user or agent message event.
pub open spec fn echo_payload(line: Json) -> bool {
    match line.get("payload"@) {
        Some(p) => p.str_at("type"@) == Some("user_message"@) || p.str_at("type"@) == Some(
            "agent_message"@,
        ),
        None => false,
    }
}

/// A line of a rollout file that only repeats a response item: an
/// `event_msg` line whose payload is a user or agent message.
pub open spec fn is_echo_event(line: Option<Json>) -> bool {
    match line {
        Some(l) => or_str(l.str_at("type"@), ""@) == "event_msg"@ && echo_payload(l),
        None => false,
    }
}

/// The lines with every echo event taken out, the others in their order.
pub open spec fn without_echo_events(lines: Seq<Option<Json>>) -> Seq<Option<Json>>
    decreases lines.len(),
{
    if lines.len() == 0 {
        Seq::empty()
    } else {
        let rest = without_echo_events(lines.drop_last());
        if is_echo_event(lines.last()) {
            rest
        } else {
            rest.push(lines.last())
        }
    }
}

proof fn lemma_fold_without_echo_events(lines: Seq<Option<Json>>)
    ensures
        spec_rollout_fold(without_echo_events(lines)) == spec_rollout_fold(lines),
    decreases lines.len(),
{
    if lines.len() > 0 {
        let rest = without_echo_events(lines.drop_last());
        lemma_fold_without_echo_events(lines.drop_last());
        if is_echo_event(lines.last()) {
            let l = lines.last()->0;
            law_duplicate_events_ignored(spec_rollout_fold(lines.drop_last()), l);
        } else {
            assert(rest.push(lines.last()).drop_last() =~= rest);
        }
    }
}

/// Taking every user and agent message event out of a rollout file leaves
/// its messages as they were: those events only repeat response items.
pub proof fn law_echo_events_change_nothing(lines: Seq<Option<Json>>)
    ensures
        spec_rollout_messages(without_echo_events(lines)) == spec_rollout_messages(lines),
{
    lemma_fold_without_echo_events(lines);
}

/// The raw lines of a rollout file with every line taken out that parses to
/// an echo event.
pub open spec fn drop_echo_lines(lines: Seq<Vec<u8>>) -> Seq<Vec<u8>>
    decreases lines.len(),
{
    if lines.len() == 0 {
        Seq::empty()
    } else {
        let rest = drop_echo_lines(lines.drop_last());
        if is_echo_event(simd_json_parsed(lines.last()@)) {
            rest
        } else {
            rest.push(lines.last())
        }
    }
}

pub open spec fn parsed_lines(lines: Seq<Vec<u8>>) -> Seq<Option<Json>> {
    lines.map_values(|l: Vec<u8>| simd_json_parsed(l@))
}

proof fn lemma_parsed_drop_echo_lines(lines: Seq<Vec<u8>>)
    ensures
        parsed_lines(drop_echo_lines(lines)) == without_echo_events(parsed_lines(lines)),
    decreases lines.len(),
{
    if lines.len() > 0 {
        lemma_parsed_drop_echo_lines(lines.drop_last());
        assert(parsed_lines(lines.drop_last()) =~= parsed_lines(lines).drop_last());
        let rest = drop_echo_lines(lines.drop_last());
        if !is_echo_event(simd_json_parsed(lines.last()@)) {
            assert(parsed_lines(rest.push(lines.last())) =~= parsed_lines(rest).push(
                simd_json_parsed(lines.last()@),
            ));
        }
    }
}

/// Loading a rollout file gives the same messages with or without its user
/// and agent message event lines (the reading of `load_messages`).
pub proof fn law_load_ignores_echo_lines(lines: Seq<Vec<u8>>)
    ensures
        spec_rollout_messages(parsed_lines(drop_echo_lines(lines))) == spec_rollout_messages(
            parsed_lines(lines),
        ),
{
    lemma_parsed_drop_echo_lines(lines);
    law_echo_events_change_nothing(parsed_lines(lines));
}

/// A summary keeps at most 200 characters of the title and adds "..." only
/// where it cut; a title of at most 200 characters is kept whole.
pub proof fn law_summary_length(title: Seq<char>)
    ensures
        spec_truncate_summary_text(title).len() <= 203,
        title.len() <= 200 ==> spec_truncate_summary_text(title) == title,
        title.len() > 200 ==> spec_truncate_summary_text(title).take(200) == title.take(200),
{
    reveal_strlit("...");
    if title.len() > 200 {
        assert((title.take(200) + "..."@).take(200) =~= title.take(200));
    }
}

/// The valid title lines for `id` among `lines`, by the time they give.
pub open spec fn title_line_for(line: Seq<char>, id: Seq<char>) -> Option<Seq<char>> {
    let t = trim(line);
    if t.len() == 0 {
        None
    } else {
        match serde_json_parsed(t) {
            Some(v) => match (v.str_at("id"@), v.str_at("thread_name"@)) {
                (Some(i), Some(n)) => if i == id && trim(n).len() > 0 {
                    Some(or_str(v.str_at("updated_at"@), ""@))
                } else {
                    None
                },
                _ => None,
            },
            None => None,
        }
    }
}

/// The title kept for a thread is that of its latest renaming: no renaming
/// line for it has a later time.
pub proof fn law_titles_keep_latest(lines: Seq<Seq<char>>, id: Seq<char>, k: int)
    requires
        0 <= k < lines.len(),
        title_line_for(lines[k], id) is Some,
    ensures
        title_pos(spec_titles_fold(lines), id) matches Some(p) && text_order(
            spec_titles_fold(lines)[p].updated_at,
            title_line_for(lines[k], id)->0,
        ) >= 0,
    decreases lines.len(),
{
    let prev = spec_titles_fold(lines.drop_last());
    let cur = spec_titles_fold(lines);
    crate::codex::threads::lemma_title_pos(prev, id);
    crate::codex::threads::lemma_title_pos(cur, id);
    if k < lines.len() - 1 {
        assert(lines.drop_last()[k] == lines[k]);
        law_titles_keep_latest(lines.drop_last(), id, k);
        lemma_title_line_keeps_newer(prev, lines.last(), id);
        let p0 = title_pos(prev, id)->0;
        let p1 = title_pos(cur, id)->0;
        crate::sort::lemma_text_order_trans(
            cur[p1].updated_at,
            prev[p0].updated_at,
            title_line_for(lines[k], id)->0,
        );
    } else {
        lemma_title_line_sets(prev, lines.last(), id);
    }
}

/// A line never makes the kept time of a thread earlier.
proof fn lemma_title_line_keeps_newer(entries: Seq<TitleEntry>, line: Seq<char>, id: Seq<char>)
    requires
        title_pos(entries, id) is Some,
    ensures
        title_pos(spec_title_line(entries, line), id) matches Some(p1) && text_order(
            spec_title_line(entries, line)[p1].updated_at,
            entries[title_pos(entries, id)->0].updated_at,
        ) >= 0,
{
    let p0 = title_pos(entries, id)->0;
    crate::codex::threads::lemma_title_pos(entries, id);
    crate::sort::lemma_text_order_antisym(entries[p0].updated_at, entries[p0].updated_at);
    let r = spec_title_line(entries, line);
    crate::codex::threads::lemma_title_pos(r, id);
    lemma_keep_title_pos(entries, line, id);
}

/// Keeping a title keeps each thread at its place (a new thread comes last).
proof fn lemma_keep_title_pos(entries: Seq<TitleEntry>, line: Seq<char>, id: Seq<char>)
    requires
        title_pos(entries, id) is Some,
    ensures
        title_pos(spec_title_line(entries, line), id) == title_pos(entries, id),
        spec_title_line(entries, line)[title_pos(entries, id)->0].id == id,
        text_order(
            spec_title_line(entries, line)[title_pos(entries, id)->0].updated_at,
            entries[title_pos(entries, id)->0].updated_at,
        ) >= 0,
{
    let p0 = title_pos(entries, id)->0;
    crate::codex::threads::lemma_title_pos(entries, id);
    crate::sort::lemma_text_order_antisym(entries[p0].updated_at, entries[p0].updated_at);
    let t = trim(line);
    if t.len() > 0 {
        match serde_json_parsed(t) {
            Some(v) => match (v.str_at("id"@), v.str_at("thread_name"@)) {
                (Some(i), Some(n)) => {
                    if trim(n).len() > 0 {
                        let name = trim(n);
                        let upd = or_str(v.str_at("updated_at"@), ""@);
                        lemma_keep_pos(entries, i, name, upd, id);
                    }
                },
                _ => {},
            },
            None => {},
        }
    }
}

proof fn lemma_keep_pos(
    entries: Seq<TitleEntry>,
    i: Seq<char>,
    name: Seq<char>,
    upd: Seq<char>,
    id: Seq<char>,
)
    requires
        title_pos(entries, id) is Some,
    ensures
        title_pos(spec_keep_title(entries, i, name, upd), id) == title_pos(entries, id),
        spec_keep_title(entries, i, name, upd)[title_pos(entries, id)->0].id == id,
        text_order(
            spec_keep_title(entries, i, name, upd)[title_pos(entries, id)->0].updated_at,
            entries[title_pos(entries, id)->0].updated_at,
        ) >= 0,
{
    let p0 = title_pos(entries, id)->0;
    crate::codex::threads::lemma_title_pos(entries, id);
    crate::codex::threads::lemma_title_pos(entries, i);
    crate::sort::lemma_text_order_antisym(entries[p0].updated_at, entries[p0].updated_at);
    let r = spec_keep_title(entries, i, name, upd);
    lemma_title_pos_same_ids(entries, r, id);
}

/// Two lists whose ids agree at every place of the shorter, where the longer
/// only adds at the end, place each thread alike.
proof fn lemma_title_pos_same_ids(a: Seq<TitleEntry>, b: Seq<TitleEntry>, id: Seq<char>)
    requires
        a.len() <= b.len(),
        forall|q: int| 0 <= q < a.len() ==> #[trigger] b[q].id == a[q].id,
        title_pos(a, id) is Some,
        forall|q: int| a.len() <= q < b.len() ==> #[trigger] b[q].id != id,
    ensures
        title_pos(b, id) == title_pos(a, id),
    decreases b.len(),
{
    if b.len() > a.len() {
        assert(b.drop_last().len() >= a.len());
        assert forall|q: int| 0 <= q < a.len() implies #[trigger] b.drop_last()[q].id == a[q].id by {
            assert(b.drop_last()[q] == b[q]);
        }
        assert forall|q: int| a.len() <= q < b.drop_last().len() implies #[trigger] b.drop_last()[q].id
            != id by {
            assert(b.drop_last()[q] == b[q]);
        }
        lemma_title_pos_same_ids(a, b.drop_last(), id);
    } else if a.len() > 0 {
        if a.last().id != id {
            assert forall|q: int| 0 <= q < a.drop_last().len() implies #[trigger] b.drop_last()[q].id
                == a.drop_last()[q].id by {
                assert(b.drop_last()[q] == b[q]);
                assert(a.drop_last()[q] == a[q]);
            }
            lemma_title_pos_same_ids(a.drop_last(), b.drop_last(), id);
        }
    }
}

/// The line that renames a thread leaves it with a time no earlier than the
/// line's.
proof fn lemma_title_line_sets(entries: Seq<TitleEntry>, line: Seq<char>, id: Seq<char>)
    requires
        title_line_for(line, id) is Some,
    ensures
        title_pos(spec_title_line(entries, line), id) matches Some(p) && text_order(
            spec_title_line(entries, line)[p].updated_at,
            title_line_for(line, id)->0,
        ) >= 0,
{
    let upd = title_line_for(line, id)->0;
    let t = trim(line);
    let v = serde_json_parsed(t)->0;
    let name = trim(v.str_at("thread_name"@)->0);
    let r = spec_title_line(entries, line);
    assert(r == spec_keep_title(entries, id, name, upd));
    crate::codex::threads::lemma_title_pos(entries, id);
    crate::sort::lemma_text_order_antisym(upd, upd);
    match title_pos(entries, id) {
        Some(p) => {
            crate::sort::lemma_text_order_antisym(upd, entries[p].updated_at);
            lemma_title_pos_same_ids(entries, r, id);
        },
        None => {
            lemma_title_pos_push(entries, TitleEntry { id, name, updated_at: upd });
        },
    }
}

proof fn lemma_title_pos_push(entries: Seq<TitleEntry>, e: TitleEntry)
    ensures
        title_pos(entries.push(e), e.id) == Some(entries.len() as int),
{
    assert(entries.push(e).last() == e);
}

/// The groups of the index files are at most as many as the files.
proof fn lemma_index_files_shape(files: Seq<crate::codex::index::RolloutFile>, titles: Seq<TitleEntry>)
    ensures
        crate::codex::index::spec_index_files(files, titles).len() <= files.len(),
        crate::codex::index::cwds_distinct(crate::codex::index::spec_index_files(files, titles)),
    decreases files.len(),
{
    if files.len() > 0 {
        lemma_index_files_shape(files.drop_last(), titles);
        let g = crate::codex::index::spec_index_files(files.drop_last(), titles);
        let f = files.last();
        if crate::codex::paths::spec_is_rollout_jsonl(f.path@) {
            match f.lines {
                Some(lines) => {
                    let info = crate::codex::session_info::spec_session_info(
                        crate::codex::index::parsed_rollout(lines@),
                        f.path@,
                        f.modified@,
                    );
                    let cwd = crate::codex::index::cwd_of(info);
                    let item = crate::codex::index::spec_session_of(info, cwd, titles);
                    crate::codex::index::lemma_add_to_group_distinct(g, cwd, item);
                    crate::codex::index::lemma_group_pos(g, cwd);
                },
                None => {},
            }
        }
    }
}

/// In groups with distinct working directories, the group of a directory is
/// found at its place.
proof fn lemma_group_pos_distinct<T>(groups: Seq<(Seq<char>, T)>, t: int)
    requires
        crate::codex::index::cwds_distinct(groups),
        0 <= t < groups.len(),
    ensures
        group_pos(groups, groups[t].0) == Some(t),
{
    crate::codex::index::lemma_group_pos(groups, groups[t].0);
    match group_pos(groups, groups[t].0) {
        Some(p) => {
            if p != t {
                if p < t {
                    assert(groups[p].0 != groups[t].0);
                } else {
                    assert(groups[t].0 != groups[p].0);
                }
            }
        },
        None => {},
    }
}

/// Each project in order comes from a group with sessions.
proof fn lemma_projects_in_order_from(gs: Seq<(Seq<char>, Seq<SessionView>)>, m: int)
    requires
        0 <= m < crate::codex::index::spec_projects_in_order(gs).len(),
    ensures
        crate::codex::index::spec_projects_in_order(gs).len() <= gs.len(),
        exists|t: int|
            0 <= t < gs.len() && #[trigger] gs[t].1.len() > 0 && crate::codex::index::spec_projects_in_order(
                gs,
            )[m] == crate::codex::index::spec_project(gs[t].0, gs[t].1),
    decreases gs.len(),
{
    lemma_projects_in_order_len(gs);
    let rest = crate::codex::index::spec_projects_in_order(gs.drop_last());
    lemma_projects_in_order_len(gs.drop_last());
    if m < rest.len() {
        lemma_projects_in_order_from(gs.drop_last(), m);
        let t = choose|t: int|
            0 <= t < gs.drop_last().len() && #[trigger] gs.drop_last()[t].1.len() > 0
                && rest[m] == crate::codex::index::spec_project(gs.drop_last()[t].0, gs.drop_last()[t].1);
        assert(gs[t] == gs.drop_last()[t]);
    } else {
        assert(gs[gs.len() - 1] == gs.last());
    }
}

proof fn lemma_projects_in_order_len(gs: Seq<(Seq<char>, Seq<SessionView>)>)
    ensures
        crate::codex::index::spec_projects_in_order(gs).len() <= gs.len(),
    decreases gs.len(),
{
    if gs.len() > 0 {
        lemma_projects_in_order_len(gs.drop_last());
    }
}

/// Each filtered group is a group of the index with the sessions the filters
/// leave.
proof fn lemma_filtered_groups_from(
    groups: Seq<(Seq<char>, Seq<SessionView>)>,
    hss: Seq<Seq<Seq<String>>>,
    f: Option<CodexSessionFilters>,
    t: int,
)
    requires
        hss.len() == groups.len(),
        0 <= t < crate::codex::index::spec_filtered_groups(groups, hss, f).len(),
    ensures
        crate::codex::index::spec_filtered_groups(groups, hss, f).len() <= groups.len(),
        exists|u: int|
            0 <= u < groups.len() && #[trigger] crate::codex::index::spec_filtered_groups(
                groups,
                hss,
                f,
            )[t] == (groups[u].0, spec_filter_sessions(groups[u].1, hss[u], f)),
    decreases groups.len(),
{
    lemma_filtered_groups_len(groups, hss, f);
    let rest = crate::codex::index::spec_filtered_groups(groups.drop_last(), hss.drop_last(), f);
    lemma_filtered_groups_len(groups.drop_last(), hss.drop_last(), f);
    if t < rest.len() {
        lemma_filtered_groups_from(groups.drop_last(), hss.drop_last(), f, t);
        let u = choose|u: int|
            0 <= u < groups.drop_last().len() && #[trigger] rest[t] == (
                groups.drop_last()[u].0,
                spec_filter_sessions(groups.drop_last()[u].1, hss.drop_last()[u], f),
            );
        assert(groups[u] == groups.drop_last()[u]);
        assert(hss[u] == hss.drop_last()[u]);
    } else {
        assert(groups[groups.len() - 1] == groups.last());
        assert(hss[groups.len() - 1] == hss.last());
    }
}

proof fn lemma_filtered_groups_len(
    groups: Seq<(Seq<char>, Seq<SessionView>)>,
    hss: Seq<Seq<Seq<String>>>,
    f: Option<CodexSessionFilters>,
)
    ensures
        crate::codex::index::spec_filtered_groups(groups, hss, f).len() <= groups.len(),
    decreases groups.len(),
{
    if groups.len() > 0 {
        lemma_filtered_groups_len(groups.drop_last(), hss.drop_last(), f);
    }
}

/// The session count of each project a scan lists, as the filters leave it,
/// is the number of sessions a load of that project gives from the same
/// index, where the files' leading lines read are the same
/// (`hss[g]` for the project's group `g`).
pub proof fn law_project_counts_match_loaded_sessions(
    disk: CodexDisk,
    hss: Seq<Seq<Seq<String>>>,
    f: Option<CodexSessionFilters>,
    j: int,
)
    requires
        spec_build_index(disk) is Ok,
        hss.len() == spec_build_index(disk)->Ok_0.groups.len(),
        0 <= j < spec_filter_projects(spec_build_index(disk)->Ok_0, hss, f).len(),
    ensures
        ({
            let ix = spec_build_index(disk)->Ok_0;
            let p = spec_filter_projects(ix, hss, f)[j];
            &&& p.session_count >= 1
            &&& group_pos(ix.groups, p.actual_path) matches Some(g) && p.session_count as int
                == spec_filter_sessions(sessions_of_cwd(ix, p.actual_path), hss[g], f).len()
        }),
{
    let ix = spec_build_index(disk)->Ok_0;
    if !disk.has_session_dirs {
        assert(spec_filter_projects(ix, hss, f).len() == 0) by {
            if spec_should_apply(f) {
                assert(crate::codex::index::spec_filtered_groups(ix.groups, hss, f) =~= Seq::empty());
                assert(crate::codex::index::spec_projects_in_order(Seq::empty()) =~= Seq::<crate::models::ProjectView>::empty());
                crate::sort::law_newest_first(crate::codex::index::project_keys(Seq::empty()));
            } else {
                assert(crate::codex::index::spec_projects_in_order(Seq::empty()) =~= Seq::<crate::models::ProjectView>::empty());
                crate::sort::law_newest_first(crate::codex::index::project_keys(Seq::empty()));
            }
        }
        return;
    }
    let titles = crate::codex::index::titles_from(disk.titles_content);
    let raw = crate::codex::index::spec_index_files(disk.files@, titles);
    lemma_index_files_shape(disk.files@, titles);
    let groups = ix.groups;
    assert(groups == crate::codex::index::spec_sort_groups(raw));
    assert(crate::codex::index::cwds_distinct(groups)) by {
        assert forall|a: int, b: int| 0 <= a < b < groups.len() implies #[trigger] groups[a].0
            != #[trigger] groups[b].0 by {
            assert(groups[a].0 == raw[a].0);
            assert(groups[b].0 == raw[b].0);
        }
    }
    let gs = if spec_should_apply(f) {
        crate::codex::index::spec_filtered_groups(groups, hss, f)
    } else {
        groups
    };
    if spec_should_apply(f) {
        lemma_filtered_groups_len(groups, hss, f);
    }
    let in_order = crate::codex::index::spec_projects_in_order(gs);
    lemma_projects_in_order_len(gs);
    let keys = crate::codex::index::project_keys(in_order);
    assert(disk.files@.len() == disk.files.len());
    assert(raw.len() <= disk.files@.len());
    assert(groups.len() == raw.len());
    assert(gs.len() <= groups.len());
    assert(keys.len() == in_order.len());
    assert(keys.len() <= usize::MAX);
    crate::sort::law_newest_first(keys);
    let o = crate::sort::newest_first(keys);
    assert(spec_filter_projects(ix, hss, f) == crate::sort::reorder(in_order, o));
    let m = o[j] as int;
    assert(spec_filter_projects(ix, hss, f)[j] == in_order[m]);
    lemma_projects_in_order_from(gs, m);
    let t = choose|t: int|
        0 <= t < gs.len() && #[trigger] gs[t].1.len() > 0 && in_order[m]
            == crate::codex::index::spec_project(gs[t].0, gs[t].1);
    lemma_sorted_group_sizes(disk.files@, titles);
    if spec_should_apply(f) {
        lemma_filtered_groups_from(groups, hss, f, t);
        let u = choose|u: int|
            0 <= u < groups.len() && #[trigger] crate::codex::index::spec_filtered_groups(
                groups,
                hss,
                f,
            )[t] == (groups[u].0, spec_filter_sessions(groups[u].1, hss[u], f));
        lemma_group_pos_distinct(groups, u);
        lemma_filter_len(groups[u].1, hss[u], f);
        assert(groups[u].1.len() <= disk.files@.len());
    } else {
        let fv = f->0;
        lemma_group_pos_distinct(groups, t);
        law_disabled_filters_keep_sessions(groups[t].1, hss[t], fv);
        assert(groups[t].1.len() <= disk.files@.len());
    }
}

/// No group of the index files holds more sessions than there are files.
proof fn lemma_index_files_sizes(files: Seq<crate::codex::index::RolloutFile>, titles: Seq<TitleEntry>)
    ensures
        forall|g: int|
            0 <= g < crate::codex::index::spec_index_files(files, titles).len() ==> (#[trigger] crate::codex::index::spec_index_files(
                files,
                titles,
            )[g]).1.len() <= files.len(),
    decreases files.len(),
{
    if files.len() > 0 {
        lemma_index_files_sizes(files.drop_last(), titles);
        let prev = crate::codex::index::spec_index_files(files.drop_last(), titles);
        let f = files.last();
        if crate::codex::paths::spec_is_rollout_jsonl(f.path@) {
            match f.lines {
                Some(lines) => {
                    let info = crate::codex::session_info::spec_session_info(
                        crate::codex::index::parsed_rollout(lines@),
                        f.path@,
                        f.modified@,
                    );
                    let cwd = crate::codex::index::cwd_of(info);
                    crate::codex::index::lemma_group_pos(prev, cwd);
                    let cur = crate::codex::index::spec_index_files(files, titles);
                    assert forall|g: int| 0 <= g < cur.len() implies (#[trigger] cur[g]).1.len()
                        <= files.len() by {
                        if g < prev.len() {
                            assert(prev[g].1.len() <= files.len() - 1);
                        }
                    }
                },
                None => {},
            }
        }
    }
}

/// Sorting each group keeps its size, so no group of the index holds more
/// sessions than there are files.
proof fn lemma_sorted_group_sizes(files: Seq<crate::codex::index::RolloutFile>, titles: Seq<TitleEntry>)
    requires
        files.len() <= usize::MAX,
    ensures
        forall|g: int|
            0 <= g < crate::codex::index::spec_index_files(files, titles).len() ==> (#[trigger] crate::codex::index::spec_sort_groups(
                crate::codex::index::spec_index_files(files, titles),
            )[g]).1.len() == crate::codex::index::spec_index_files(files, titles)[g].1.len()
                && crate::codex::index::spec_index_files(files, titles)[g].1.len() <= files.len(),
{
    let raw = crate::codex::index::spec_index_files(files, titles);
    lemma_index_files_sizes(files, titles);
    assert forall|g: int| 0 <= g < raw.len() implies (#[trigger] crate::codex::index::spec_sort_groups(
        raw,
    )[g]).1.len() == raw[g].1.len() && raw[g].1.len() <= files.len() by {
        crate::sort::law_newest_first(crate::codex::index::session_keys(raw[g].1));
    }
}

/// A scan of a Codex home is refused for a relative base path. Otherwise
/// its projects come the most recently modified first; each has at least
/// one session and the path `codex://` followed by its working directory;
/// and a load of that path right after the scan (same home, thread title
/// index unchanged, each file's leading lines read alike) gives as many
/// sessions as the project counts, whatever `read_disk` would have read.
pub proof fn law_scan_projects(
    old_cache: Option<IndexView>,
    disk: CodexDisk,
    hss: Seq<Seq<Seq<String>>>,
    f: Option<CodexSessionFilters>,
    any_disk: CodexDisk,
)
    requires
        spec_build_index(disk) is Ok ==> hss.len() == spec_build_index(disk)->Ok_0.groups.len(),
    ensures
        !crate::codex::index::is_absolute_path(disk.base_path@) ==> spec_scan(
            old_cache,
            disk,
            hss,
            f,
        ).0 is Err,
        spec_scan(old_cache, disk, hss, f).0 is Ok ==> ({
            let ps = spec_scan(old_cache, disk, hss, f).0->Ok_0;
            let kept = spec_scan(old_cache, disk, hss, f).1;
            let ix = spec_build_index(disk)->Ok_0;
            &&& forall|a: int, b: int|
                0 <= a < b < ps.len() ==> text_order(
                    #[trigger] ps[a].last_modified,
                    #[trigger] ps[b].last_modified,
                ) >= 0
            &&& forall|j: int|
                #![trigger ps[j]]
                0 <= j < ps.len() ==> {
                    &&& ps[j].session_count >= 1
                    &&& ps[j].path == "codex://"@ + ps[j].actual_path
                    &&& group_pos(ix.groups, ps[j].actual_path) is Some
                    &&& spec_load(
                        kept,
                        Some(disk.base_path@),
                        disk.thread_index_modified,
                        ps[j].path,
                        any_disk,
                        hss[group_pos(ix.groups, ps[j].actual_path)->0],
                        f,
                    ).0 matches Ok(ss) && ss.len() == ps[j].session_count
                }
        }),
{
    if spec_build_index(disk) is Ok {
        let ps = spec_scan(old_cache, disk, hss, f).0->Ok_0;
        let kept = spec_scan(old_cache, disk, hss, f).1;
        let ix = spec_build_index(disk)->Ok_0;
        law_scan_then_load_uses_index(old_cache, disk, hss, f);
        lemma_scan_sorted(disk, hss, f);
        assert forall|j: int| #![trigger ps[j]] 0 <= j < ps.len() implies {
            &&& ps[j].session_count >= 1
            &&& ps[j].path == "codex://"@ + ps[j].actual_path
            &&& group_pos(ix.groups, ps[j].actual_path) is Some
            &&& spec_load(
                kept,
                Some(disk.base_path@),
                disk.thread_index_modified,
                ps[j].path,
                any_disk,
                hss[group_pos(ix.groups, ps[j].actual_path)->0],
                f,
            ).0 matches Ok(ss) && ss.len() == ps[j].session_count
        } by {
            law_project_counts_match_loaded_sessions(disk, hss, f, j);
            lemma_scan_project_path(disk, hss, f, j);
            law_project_path_round_trip(ps[j].actual_path);
        }
    }
}

/// Each project of a successful scan has the path `codex://` followed by
/// its working directory.
proof fn lemma_scan_project_path(
    disk: CodexDisk,
    hss: Seq<Seq<Seq<String>>>,
    f: Option<CodexSessionFilters>,
    j: int,
)
    requires
        spec_build_index(disk) is Ok,
        hss.len() == spec_build_index(disk)->Ok_0.groups.len(),
        0 <= j < spec_filter_projects(spec_build_index(disk)->Ok_0, hss, f).len(),
    ensures
        spec_filter_projects(spec_build_index(disk)->Ok_0, hss, f)[j].path == "codex://"@
            + spec_filter_projects(spec_build_index(disk)->Ok_0, hss, f)[j].actual_path,
{
    let ix = spec_build_index(disk)->Ok_0;
    let gs = if !disk.has_session_dirs {
        Seq::<(Seq<char>, Seq<SessionView>)>::empty()
    } else if spec_should_apply(f) {
        crate::codex::index::spec_filtered_groups(ix.groups, hss, f)
    } else {
        ix.groups
    };
    if !disk.has_session_dirs {
        assert(spec_filter_projects(ix, hss, f) == crate::codex::index::spec_projects_from_groups(gs)) by {
            if spec_should_apply(f) {
                assert(crate::codex::index::spec_filtered_groups(ix.groups, hss, f) =~= gs);
            }
        }
    }
    let in_order = crate::codex::index::spec_projects_in_order(gs);
    lemma_projects_in_order_len(gs);
    let keys = crate::codex::index::project_keys(in_order);
    lemma_projects_len_bound(disk, hss, f);
    crate::sort::law_newest_first(keys);
    let o = crate::sort::newest_first(keys);
    let m = o[j] as int;
    assert(spec_filter_projects(ix, hss, f)[j] == in_order[m]);
    lemma_projects_in_order_from(gs, m);
}

/// The projects of a scan before ordering are no more than the files.
proof fn lemma_projects_len_bound(disk: CodexDisk, hss: Seq<Seq<Seq<String>>>, f: Option<CodexSessionFilters>)
    requires
        spec_build_index(disk) is Ok,
    ensures
        ({
            let ix = spec_build_index(disk)->Ok_0;
            &&& ix.groups.len() <= usize::MAX
            &&& crate::codex::index::spec_filtered_groups(ix.groups, hss, f).len() <= usize::MAX
            &&& crate::codex::index::spec_projects_in_order(ix.groups).len() <= usize::MAX
            &&& crate::codex::index::spec_projects_in_order(
                crate::codex::index::spec_filtered_groups(ix.groups, hss, f),
            ).len() <= usize::MAX
        }),
{
    let ix = spec_build_index(disk)->Ok_0;
    if disk.has_session_dirs {
        let titles = crate::codex::index::titles_from(disk.titles_content);
        lemma_index_files_shape(disk.files@, titles);
        assert(disk.files@.len() == disk.files.len());
    }
    lemma_filtered_groups_len(ix.groups, hss, f);
    lemma_projects_in_order_len(ix.groups);
    lemma_projects_in_order_len(crate::codex::index::spec_filtered_groups(ix.groups, hss, f));
}

/// The projects of a successful scan come the most recently modified first.
proof fn lemma_scan_sorted(disk: CodexDisk, hss: Seq<Seq<Seq<String>>>, f: Option<CodexSessionFilters>)
    requires
        spec_build_index(disk) is Ok,
    ensures
        ({
            let ps = spec_filter_projects(spec_build_index(disk)->Ok_0, hss, f);
            forall|a: int, b: int|
                0 <= a < b < ps.len() ==> text_order(
                    #[trigger] ps[a].last_modified,
                    #[trigger] ps[b].last_modified,
                ) >= 0
        }),
{
    let ix = spec_build_index(disk)->Ok_0;
    lemma_projects_len_bound(disk, hss, f);
    if !disk.has_session_dirs {
        assert(spec_filter_projects(ix, hss, f).len() == 0) by {
            assert(crate::codex::index::spec_projects_in_order(Seq::empty()) =~= Seq::<crate::models::ProjectView>::empty());
            crate::sort::law_newest_first(crate::codex::index::project_keys(Seq::empty()));
            if spec_should_apply(f) {
                assert(crate::codex::index::spec_filtered_groups(ix.groups, hss, f) =~= Seq::empty());
            }
        }
        return;
    }
    let gs = if spec_should_apply(f) {
        crate::codex::index::spec_filtered_groups(ix.groups, hss, f)
    } else {
        ix.groups
    };
    assert(spec_filter_projects(ix, hss, f) == crate::codex::index::spec_projects_from_groups(gs));
    let in_order = crate::codex::index::spec_projects_in_order(gs);
    let keys = crate::codex::index::project_keys(in_order);
    crate::sort::law_newest_first(keys);
    let o = crate::sort::newest_first(keys);
    let ps = spec_filter_projects(ix, hss, f);
    assert forall|a: int, b: int| 0 <= a < b < ps.len() implies text_order(
        #[trigger] ps[a].last_modified,
        #[trigger] ps[b].last_modified,
    ) >= 0 by {
        assert(ps[a] == in_order[o[a] as int]);
        assert(ps[b] == in_order[o[b] as int]);
        assert(keys[o[a] as int] == crate::codex::index::text_key(in_order[o[a] as int].last_modified));
        assert(keys[o[b] as int] == crate::codex::index::text_key(in_order[o[b] as int].last_modified));
        assert(crate::sort::key_order(keys[o[a] as int], keys[o[b] as int]) >= 0);
    }
}

/// Merging a tool result into the call it answers adds no message: the
/// result becomes the last block of that call's message, and every other
/// message stays as it was.
pub proof fn law_merge_keeps_messages(msgs: Seq<crate::models::MessageView>, msg: crate::models::MessageView)
    requires
        crate::codex::rollout::spec_try_merge(msgs, msg) is Some,
    ensures
        ({
            let r = crate::codex::rollout::spec_try_merge(msgs, msg)->0;
            let (id, block) = crate::codex::rollout::spec_extract_tool_result_block(msg)->0;
            let j = crate::codex::rollout::merge_target(msgs, id)->0;
            &&& r.len() == msgs.len()
            &&& r[j].content matches Some(Json::Array(a)) && a.len() > 0 && a.last() == block
            &&& forall|k: int| 0 <= k < msgs.len() && k != j ==> #[trigger] r[k] == msgs[k]
        }),
{
    let (id, block) = crate::codex::rollout::spec_extract_tool_result_block(msg)->0;
    crate::codex::rollout::lemma_merge_target(msgs, id);
}

// ---------------------------------------------------------------------------
// Permission reviews
// ---------------------------------------------------------------------------

/// A line that is no session meta: not JSON, or of another type.
pub open spec fn not_session_meta(l: Option<Json>) -> bool {
    match l {
        Some(v) => v.str_at("type"@) != Some("session_meta"@),
        None => true,
    }
}

/// The payload names the guardian as its subagent (`source.subagent.other`).
pub open spec fn names_guardian(p: Json) -> bool {
    match p.get("source"@) {
        Some(s) => match s.get("subagent"@) {
            Some(sa) => sa.str_at("other"@) == Some("guardian"@),
            None => false,
        },
        None => false,
    }
}

/// The payload's `base_instructions.text` holds the words with which the
/// guardian's instructions begin.
pub open spec fn carries_guardian_instructions(p: Json) -> bool {
    match p.get("base_instructions"@) {
        Some(b) => match b.str_at("text"@) {
            Some(t) => exists|i: int|
                crate::text::occurs_at(t, "You are judging one planned coding-agent action"@, i),
            None => false,
        },
        None => false,
    }
}

proof fn lemma_first_meta_decides(ps: Seq<Option<Json>>, k: int, p: Json)
    requires
        0 <= k < ps.len(),
        ps[k] matches Some(v) && v.str_at("type"@) == Some("session_meta"@) && v.get("payload"@) == Some(p),
        forall|j: int| 0 <= j < k ==> not_session_meta(#[trigger] ps[j]),
    ensures
        crate::codex::classify::first_meta_is_permission(ps)
            == crate::codex::classify::is_permission_payload(p),
    decreases k,
{
    if k > 0 {
        assert(not_session_meta(ps[0]));
        assert(ps.drop_first()[k - 1] == ps[k]);
        assert forall|j: int| 0 <= j < k - 1 implies not_session_meta(#[trigger] ps.drop_first()[j]) by {
            assert(ps.drop_first()[j] == ps[j + 1]);
            assert(not_session_meta(ps[j + 1]));
        }
        lemma_first_meta_decides(ps.drop_first(), k - 1, p);
    }
}

/// A session is a permissions review exactly where the first session meta
/// among its first 20 lines names the guardian as its subagent, or carries
/// the guardian's instructions, whatever else its payload holds.
pub proof fn law_permission_review_by_first_meta(lines: Seq<String>, k: int, v: Json, p: Json)
    requires
        0 <= k < lines.len(),
        k < 20,
        serde_json_parsed(lines[k]@) == Some(v),
        v.str_at("type"@) == Some("session_meta"@),
        v.get("payload"@) == Some(p),
        forall|j: int| 0 <= j < k ==> not_session_meta(#[trigger] serde_json_parsed(lines[j]@)),
    ensures
        crate::codex::classify::spec_is_permissions_session(lines) == (names_guardian(p)
            || carries_guardian_instructions(p)),
{
    let ps = crate::codex::classify::parsed_lines(crate::codex::classify::head(lines, 20));
    let hd = crate::codex::classify::head(lines, 20);
    assert(hd.len() > k);
    assert(ps[k] == serde_json_parsed(hd[k]@));
    assert(hd[k] == lines[k]);
    assert forall|j: int| 0 <= j < k implies not_session_meta(#[trigger] ps[j]) by {
        assert(ps[j] == serde_json_parsed(hd[j]@));
        assert(hd[j] == lines[j]);
        assert(not_session_meta(serde_json_parsed(lines[j]@)));
    }
    lemma_first_meta_decides(ps, k, p);
    match p.get("base_instructions"@) {
        Some(b) => match b.str_at("text"@) {
            Some(t) => {
                crate::text::lemma_find_from(t, "You are judging one planned coding-agent action"@, 0);
                if carries_guardian_instructions(p) {
                    let i = choose|i: int|
                        crate::text::occurs_at(t, "You are judging one planned coding-agent action"@, i);
                    assert(crate::text::occurs_at(t, "You are judging one planned coding-agent action"@, i));
                }
            },
            None => {},
        },
        None => {},
    }
}

// ---------------------------------------------------------------------------
// Session times
// ---------------------------------------------------------------------------

/// The time a line carries where it is a message item of a rollout file.
pub open spec fn message_line_time(l: Option<Json>) -> Option<Seq<char>> {
    match l {
        Some(v) => if or_str(v.str_at("type"@), ""@) == "response_item"@ {
            match v.get("payload"@) {
                Some(p) => if or_str(p.str_at("type"@), ""@) == "message"@ {
                    Some(crate::codex::session_info::message_time(v, p))
                } else {
                    None
                },
                None => None,
            }
        } else {
            None
        },
        None => None,
    }
}

/// The line is no message item with a non-empty time.
pub open spec fn untimed(l: Option<Json>) -> bool {
    match message_line_time(l) {
        Some(t) => t.len() == 0,
        None => true,
    }
}

proof fn lemma_info_step_first_time(st: crate::codex::session_info::InfoState, l: Option<Json>)
    ensures
        st.first_time.len() > 0 ==> crate::codex::session_info::spec_info_step(st, l).first_time
            == st.first_time,
        untimed(l) ==> crate::codex::session_info::spec_info_step(st, l).first_time == st.first_time,
        st.first_time.len() == 0 && !untimed(l) ==> crate::codex::session_info::spec_info_step(
            st,
            l,
        ).first_time == message_line_time(l)->0,
{
    reveal_strlit("response_item");
    reveal_strlit("session_meta");
    reveal_strlit("turn_context");
    assert("response_item"@.len() == 13);
    assert("session_meta"@.len() == 12);
    assert("turn_context"@.len() == 12);
    assert("response_item"@ != "session_meta"@);
    assert("response_item"@ != "turn_context"@);
}

proof fn lemma_fold_first_time(lines: Seq<Option<Json>>, k: int, n: int)
    requires
        0 <= n <= lines.len(),
        0 <= k < lines.len(),
        !untimed(lines[k]),
        forall|j: int| 0 <= j < k ==> untimed(#[trigger] lines[j]),
    ensures
        n <= k ==> crate::codex::session_info::spec_info_fold(lines.take(n)).first_time.len() == 0,
        n > k ==> crate::codex::session_info::spec_info_fold(lines.take(n)).first_time
            == message_line_time(lines[k])->0,
    decreases n,
{
    if n > 0 {
        lemma_fold_first_time(lines, k, n - 1);
        assert(lines.take(n).drop_last() =~= lines.take(n - 1));
        assert(lines.take(n).last() == lines[n - 1]);
        lemma_info_step_first_time(
            crate::codex::session_info::spec_info_fold(lines.take(n - 1)),
            lines[n - 1],
        );
    }
}

/// The first message time of a session is the time of its first message
/// item (in file order) that carries a non-empty time; later messages do not
/// change it.
pub proof fn law_first_message_time_is_the_first(
    lines: Seq<Option<Json>>,
    k: int,
    file_path: Seq<char>,
    file_modified: Seq<char>,
)
    requires
        0 <= k < lines.len(),
        !untimed(lines[k]),
        forall|j: int| 0 <= j < k ==> untimed(#[trigger] lines[j]),
    ensures
        crate::codex::session_info::spec_session_info(lines, file_path, file_modified).first_message_time
            == message_line_time(lines[k])->0,
{
    lemma_fold_first_time(lines, k, lines.len() as int);
    assert(lines.take(lines.len() as int) =~= lines);
}

proof fn lemma_fold_no_first_time(lines: Seq<Option<Json>>)
    requires
        forall|j: int| 0 <= j < lines.len() ==> untimed(#[trigger] lines[j]),
    ensures
        crate::codex::session_info::spec_info_fold(lines).first_time.len() == 0,
    decreases lines.len(),
{
    if lines.len() > 0 {
        assert forall|j: int| 0 <= j < lines.drop_last().len() implies untimed(
            #[trigger] lines.drop_last()[j],
        ) by {
            assert(lines.drop_last()[j] == lines[j]);
        }
        lemma_fold_no_first_time(lines.drop_last());
        assert(untimed(lines[lines.len() - 1]));
        lemma_info_step_first_time(
            crate::codex::session_info::spec_info_fold(lines.drop_last()),
            lines.last(),
        );
    }
}

/// Without a message item that carries a time, the first message time is
/// empty.
pub proof fn law_first_message_time_empty_without_times(
    lines: Seq<Option<Json>>,
    file_path: Seq<char>,
    file_modified: Seq<char>,
)
    requires
        forall|j: int| 0 <= j < lines.len() ==> untimed(#[trigger] lines[j]),
    ensures
        crate::codex::session_info::spec_session_info(lines, file_path, file_modified).first_message_time.len()
            == 0,
{
    lemma_fold_no_first_time(lines);
}

// ---------------------------------------------------------------------------
// Token usage
// ---------------------------------------------------------------------------

/// A token-count event whose payload carries the running totals `t`
/// (input, output, cached input).
pub open spec fn token_count_line(line: Json, t: (u32, u32, u32)) -> bool {
    &&& or_str(line.str_at("type"@), ""@) == "event_msg"@
    &&& match line.get("payload"@) {
        Some(p) => or_str(p.str_at("type"@), ""@) == "token_count"@
            && crate::codex::rollout::spec_extract_token_totals(p) == Some(t),
        None => false,
    }
}

/// The last message is an assistant message without usage yet.
pub open spec fn awaits_usage(msgs: Seq<crate::models::MessageView>) -> bool {
    msgs.len() > 0 && msgs.last().message_type == "assistant"@ && msgs.last().usage is None
}

/// The usage of the last message, where it has one.
pub open spec fn last_usage(msgs: Seq<crate::models::MessageView>) -> Option<crate::models::UsageView> {
    if msgs.len() > 0 {
        msgs.last().usage
    } else {
        None
    }
}

proof fn lemma_token_count_step(st: RolloutState, line: Json, t: (u32, u32, u32))
    requires
        token_count_line(line, t),
    ensures
        spec_rollout_step(st, Some(line)).prev_input == t.0,
        spec_rollout_step(st, Some(line)).prev_output == t.1,
        spec_rollout_step(st, Some(line)).prev_cached == t.2,
        spec_rollout_step(st, Some(line)).messages == crate::codex::rollout::spec_apply_usage(
            st.messages,
            crate::codex::rollout::spec_usage_for(st, t),
        ),
{
    reveal_strlit("event_msg");
    reveal_strlit("session_meta");
    reveal_strlit("turn_context");
    reveal_strlit("response_item");
    reveal_strlit("token_count");
    reveal_strlit("user_message");
    reveal_strlit("agent_message");
    assert("event_msg"@.len() == 9);
    assert("session_meta"@.len() == 12);
    assert("turn_context"@.len() == 12);
    assert("response_item"@.len() == 13);
    assert("token_count"@.len() == 11);
    assert("user_message"@.len() == 12);
    assert("agent_message"@.len() == 13);
    assert("event_msg"@ != "session_meta"@);
    assert("event_msg"@ != "turn_context"@);
    assert("event_msg"@ != "response_item"@);
    assert("token_count"@ != "user_message"@);
    assert("token_count"@ != "agent_message"@);
}

/// Every token count remembers its totals, and the first count (nothing
/// counted before) records its totals as they are: the output, the cached
/// input, and the input without the cached part.
pub proof fn law_first_token_count_records_totals(st: RolloutState, line: Json, t: (u32, u32, u32))
    requires
        token_count_line(line, t),
        st.prev_input == 0 && st.prev_output == 0,
        awaits_usage(st.messages),
    ensures
        ({
            let r = spec_rollout_step(st, Some(line));
            &&& r.prev_input == t.0 && r.prev_output == t.1 && r.prev_cached == t.2
            &&& r.messages.len() == st.messages.len()
            &&& last_usage(r.messages) matches Some(u) && u.output_tokens == Some(t.1)
                && u.cache_read_input_tokens == Some(t.2) && u.input_tokens == Some(
                if t.0 >= t.2 {
                    (t.0 - t.2) as u32
                } else {
                    0u32
                },
            )
        }),
{
    lemma_token_count_step(st, line, t);
}

/// After a count with totals T, a later count with totals T' (no smaller in
/// any part) records the growth T' - T, not the totals again: output
/// T'.1 - T.1, cached input T'.2 - T.2, and the input grown without the
/// cached growth; the count then remembers T'.
pub proof fn law_token_count_records_growth(st: RolloutState, line: Json, t: (u32, u32, u32))
    requires
        token_count_line(line, t),
        st.prev_input != 0 || st.prev_output != 0,
        st.prev_input <= t.0,
        st.prev_output <= t.1,
        st.prev_cached <= t.2,
    ensures
        ({
            let r = spec_rollout_step(st, Some(line));
            &&& r.prev_input == t.0 && r.prev_output == t.1 && r.prev_cached == t.2
            &&& r.messages.len() == st.messages.len()
            &&& awaits_usage(st.messages) ==> (last_usage(r.messages) matches Some(u)
                && u.output_tokens == Some((t.1 - st.prev_output) as u32)
                && u.cache_read_input_tokens == Some((t.2 - st.prev_cached) as u32)
                && u.input_tokens == Some(
                if t.0 - st.prev_input >= t.2 - st.prev_cached {
                    ((t.0 - st.prev_input) - (t.2 - st.prev_cached)) as u32
                } else {
                    0u32
                },
            ))
        }),
{
    lemma_token_count_step(st, line, t);
}

/// Two counts add up: where a first count with totals T (not all zero in
/// input and output) goes to one assistant message and a later count with
/// totals T' >= T to another, the two recorded outputs sum to T'.1 and the
/// two recorded cached inputs to T'.2.
pub proof fn law_token_counts_add_up(
    st0: RolloutState,
    l1: Json,
    t1: (u32, u32, u32),
    st2: RolloutState,
    l2: Json,
    t2: (u32, u32, u32),
)
    requires
        st0.prev_input == 0 && st0.prev_output == 0,
        awaits_usage(st0.messages),
        token_count_line(l1, t1),
        t1.0 != 0 || t1.1 != 0,
        st2.prev_input == t1.0 && st2.prev_output == t1.1 && st2.prev_cached == t1.2,
        awaits_usage(st2.messages),
        token_count_line(l2, t2),
        t1.0 <= t2.0 && t1.1 <= t2.1 && t1.2 <= t2.2,
    ensures
        ({
            let u1 = last_usage(spec_rollout_step(st0, Some(l1)).messages)->0;
            let u2 = last_usage(spec_rollout_step(st2, Some(l2)).messages)->0;
            &&& u1.output_tokens->0 + u2.output_tokens->0 == t2.1
            &&& u1.cache_read_input_tokens->0 + u2.cache_read_input_tokens->0 == t2.2
        }),
{
    law_first_token_count_records_totals(st0, l1, t1);
    law_token_count_records_growth(st2, l2, t2);
}

// ---------------------------------------------------------------------------
// Shell calls
// ---------------------------------------------------------------------------

/// Words joined by single spaces: the first word, a space, then the rest
/// joined alike.
pub open spec fn spaced_words(ws: Seq<Seq<char>>) -> Seq<char>
    decreases ws.len(),
{
    if ws.len() == 0 {
        Seq::empty()
    } else if ws.len() == 1 {
        ws[0]
    } else {
        ws[0] + " "@ + spaced_words(ws.drop_first())
    }
}

/// The shell call's `action.command` is an array of exactly the strings `ws`.
pub open spec fn shell_command_words(item: Json, ws: Seq<Seq<char>>) -> bool {
    match item.get("action"@) {
        Some(a) => match a.get("command"@) {
            Some(Json::Array(arr)) => arr.len() == ws.len() && forall|i: int|
                0 <= i < arr.len() ==> #[trigger] arr[i] == Json::Str(ws[i]),
            _ => false,
        },
        None => false,
    }
}

/// The command of the one tool-use block of a converted message.
pub open spec fn tool_use_command(m: Option<crate::models::MessageView>) -> Option<Seq<char>> {
    match m {
        Some(mv) => match mv.content {
            Some(Json::Array(bs)) => if bs.len() == 1 {
                match bs[0].get("input"@) {
                    Some(inp) => inp.str_at("command"@),
                    None => None,
                }
            } else {
                None
            },
            _ => None,
        },
        None => None,
    }
}

proof fn lemma_picked_all_strings(arr: Seq<Json>, ws: Seq<Seq<char>>)
    requires
        arr.len() == ws.len(),
        forall|i: int| 0 <= i < arr.len() ==> #[trigger] arr[i] == Json::Str(ws[i]),
    ensures
        crate::codex::convert::picked_strings(arr, None) == ws,
    decreases arr.len(),
{
    if arr.len() > 0 {
        assert forall|i: int| 0 <= i < arr.drop_last().len() implies #[trigger] arr.drop_last()[i]
            == Json::Str(ws.drop_last()[i]) by {
            assert(arr.drop_last()[i] == arr[i]);
        }
        lemma_picked_all_strings(arr.drop_last(), ws.drop_last());
        assert(arr.last() == arr[arr.len() - 1]);
        assert(ws.drop_last().push(ws.last()) =~= ws);
    }
}

proof fn lemma_join_spaced(ws: Seq<Seq<char>>)
    ensures
        crate::text::join(ws, " "@) == spaced_words(ws),
    decreases ws.len(),
{
    if ws.len() >= 2 {
        lemma_join_spaced(ws.drop_last());
        lemma_join_spaced(ws.drop_first());
        if ws.len() == 2 {
            assert(ws.drop_first().len() == 1);
            assert(ws.drop_last().len() == 1);
            assert(ws.drop_first()[0] == ws.last());
        } else {
            let mid = ws.drop_first().drop_last();
            assert(mid =~= ws.drop_last().drop_first());
            lemma_join_spaced(mid);
            assert(ws.drop_first().last() == ws.last());
            assert(ws.drop_last()[0] == ws[0]);
            assert(ws.drop_last().len() >= 2);
            assert(ws.drop_first().len() >= 2);
            assert(spaced_words(ws.drop_last()) == ws[0] + " "@ + spaced_words(mid));
            assert(crate::text::join(ws.drop_first(), " "@) == crate::text::join(mid, " "@) + " "@
                + ws.last());
            assert(ws[0] + " "@ + (spaced_words(mid) + " "@ + ws.last()) =~= ws[0] + " "@
                + spaced_words(mid) + " "@ + ws.last());
        }
    }
}

/// A local shell call whose command is an array of strings becomes an
/// assistant message with one tool-use block whose input command is those
/// strings joined by single spaces (so it is not empty where one of the
/// strings is not).
pub proof fn law_shell_call_joins_command_words(
    item: Json,
    ws: Seq<Seq<char>>,
    session_id: Seq<char>,
    model: Option<Seq<char>>,
    line_ts: Seq<char>,
    counter: u64,
)
    requires
        item.str_at("type"@) == Some("local_shell_call"@),
        shell_command_words(item, ws),
    ensures
        tool_use_command(
            crate::codex::convert::spec_convert_codex_item(item, session_id, model, line_ts, counter),
        ) == Some(spaced_words(ws)),
        (exists|i: int| 0 <= i < ws.len() && #[trigger] ws[i].len() > 0) ==> spaced_words(ws).len()
            > 0,
{
    reveal_strlit("local_shell_call");
    reveal_strlit("message");
    assert("local_shell_call"@.len() == 16);
    assert("message"@.len() == 7);
    assert("local_shell_call"@ != "message"@);
    reveal_strlit("type");
    reveal_strlit("id");
    reveal_strlit("name");
    reveal_strlit("input");
    reveal_strlit("command");
    assert("type"@ != "input"@) by {
        assert("type"@.len() == 4);
        assert("input"@.len() == 5);
    }
    assert("id"@ != "input"@) by {
        assert("id"@.len() == 2);
    }
    assert("name"@ != "input"@) by {
        assert("name"@.len() == 4);
    }
    let a = item.get("action"@)->0;
    let arr = a.get("command"@)->0->Array_0;
    lemma_picked_all_strings(arr, ws);
    lemma_join_spaced(ws);
    let cmd = crate::codex::convert::spec_shell_command(item);
    assert(cmd == spaced_words(ws));
    let block = crate::codex::convert::tool_use_block(
        or_str(item.str_at("call_id"@), ""@),
        "Bash"@,
        crate::codex::convert::jobj1("command"@, crate::codex::convert::jstr(cmd)),
    );
    let e = block->Object_0;
    let e1 = e.drop_first();
    let e2 = e1.drop_first();
    let e3 = e2.drop_first();
    assert(e[0].0 == "type"@);
    assert(e1[0].0 == "id"@);
    assert(e2[0].0 == "name"@);
    assert(e3[0].0 == "input"@);
    assert(crate::json::entries_pos(e3, "input"@) == Some(0int));
    assert(crate::json::entries_pos(e2, "input"@) == Some(1int));
    assert(crate::json::entries_pos(e1, "input"@) == Some(2int));
    assert(crate::json::entries_pos(e, "input"@) == Some(3int));
    assert(e[3].1 == crate::codex::convert::jobj1("command"@, crate::codex::convert::jstr(cmd)));
    lemma_spaced_nonempty(ws);
}

proof fn lemma_spaced_nonempty(ws: Seq<Seq<char>>)
    ensures
        (exists|i: int| 0 <= i < ws.len() && #[trigger] ws[i].len() > 0) ==> spaced_words(ws).len()
            > 0,
{
    reveal_strlit(" ");
    assert(" "@.len() == 1);
    if ws.len() == 1 {
        if exists|i: int| 0 <= i < ws.len() && #[trigger] ws[i].len() > 0 {
            let i = choose|i: int| 0 <= i < ws.len() && #[trigger] ws[i].len() > 0;
            assert(i == 0);
        }
    }
}

} // verus!
