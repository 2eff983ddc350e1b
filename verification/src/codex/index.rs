use vstd::prelude::*;

use crate::codex::classify::{
    is_ajk_git_commit_subagent_session, is_permissions_approval_session,
    spec_is_git_commit_worker, spec_is_permissions_session,
};
use crate::codex::paths::{
    is_rollout_jsonl, project_name_from_cwd, spec_is_rollout_jsonl, spec_project_name_from_cwd,
};
use crate::codex::session_info::{extract_session_info, spec_session_info, SessionInfo, SessionInfoView};
use crate::codex::threads::{load_thread_titles_from_index, spec_thread_titles, title_of, ThreadTitles, TitleEntry};
use crate::json::{simd_json_parsed, Json};
use crate::models::{copy_opt_string, opt_str, ClaudeProject, ClaudeSession, ProjectView, ProviderInfo, SessionView};
use crate::sort::{
    compare_keys, keys_view, lemma_top_all_distinct, newest_first, pick_in_order, reorder,
    sorted_positions, text_order, KeyView, SortKey,
};
use crate::text::{chars_of, string_from_chars};

verus! {

// ---------------------------------------------------------------------------
// Filters
// ---------------------------------------------------------------------------

/// Which Codex sessions the project and session lists leave out.
#[derive(Clone, Copy, Debug, PartialEq, Eq, Structural)]
pub struct CodexSessionFilters {
    /// Master switch. When false or absent, Codex sessions are left untouched.
    pub enabled: bool,
    /// Whether permissions/guardian approval conversations should be included.
    pub include_permissions: bool,
    /// Whether ajk-git-commit subagent worker conversations should be included.
    pub include_git_commit_subagents: bool,
}

impl Default for CodexSessionFilters {
    fn default() -> (r: Self)
        ensures
            r == (CodexSessionFilters {
                enabled: false,
                include_permissions: false,
                include_git_commit_subagents: false,
            }),
    {
        CodexSessionFilters {
            enabled: false,
            include_permissions: false,
            include_git_commit_subagents: false,
        }
    }
}

pub open spec fn opt_filters(f: Option<&CodexSessionFilters>) -> Option<CodexSessionFilters> {
    match f {
        Some(x) => Some(*x),
        None => None,
    }
}

/// Filtering is on unless filters are given with the master switch off.
pub open spec fn spec_should_apply(f: Option<CodexSessionFilters>) -> bool {
    match f {
        Some(x) => x.enabled,
        None => true,
    }
}

/// Permissions reviews are hidden unless filters are given that are off or
/// include them.
pub open spec fn spec_hide_permissions(f: Option<CodexSessionFilters>) -> bool {
    match f {
        Some(x) => x.enabled && !x.include_permissions,
        None => true,
    }
}

/// Git-commit workers are hidden unless filters are given that are off or
/// include them.
pub open spec fn spec_hide_git_commit(f: Option<CodexSessionFilters>) -> bool {
    match f {
        Some(x) => x.enabled && !x.include_git_commit_subagents,
        None => true,
    }
}

pub fn should_apply_codex_filters(filters: Option<&CodexSessionFilters>) -> (r: bool)
    ensures
        r == spec_should_apply(opt_filters(filters)),
{
    match filters {
        Some(f) => f.enabled,
        None => true,
    }
}

pub fn should_hide_permissions_sessions(filters: Option<&CodexSessionFilters>) -> (r: bool)
    ensures
        r == spec_hide_permissions(opt_filters(filters)),
{
    match filters {
        Some(f) => f.enabled && !f.include_permissions,
        None => true,
    }
}

pub fn should_hide_git_commit_subagent_sessions(filters: Option<&CodexSessionFilters>) -> (r: bool)
    ensures
        r == spec_hide_git_commit(opt_filters(filters)),
{
    match filters {
        Some(f) => f.enabled && !f.include_git_commit_subagents,
        None => true,
    }
}

/// What the start of a rollout file says of its session.
#[derive(Clone, Copy, Debug, PartialEq, Eq, Structural)]
pub struct SessionFlags {
    /// A permissions (guardian) review.
    pub is_permissions: bool,
    /// An ajk-git-commit subagent worker.
    pub is_git_commit_worker: bool,
}

/// The flags of a rollout file, given its leading lines as read.
pub open spec fn spec_session_flags(head_lines: Seq<String>) -> SessionFlags {
    SessionFlags {
        is_permissions: spec_is_permissions_session(head_lines),
        is_git_commit_worker: spec_is_git_commit_worker(head_lines),
    }
}

pub fn session_flags(head_lines: &Vec<String>) -> (r: SessionFlags)
    ensures
        r == spec_session_flags(head_lines@),
{
    SessionFlags {
        is_permissions: is_permissions_approval_session(head_lines),
        is_git_commit_worker: is_ajk_git_commit_subagent_session(head_lines),
    }
}

/// A session stays in the lists unless the filters hide its kind.
pub open spec fn spec_session_allowed(flags: SessionFlags, f: Option<CodexSessionFilters>) -> bool {
    !(spec_hide_permissions(f) && flags.is_permissions) && !(spec_hide_git_commit(f)
        && flags.is_git_commit_worker)
}

pub fn codex_session_allowed(flags: SessionFlags, filters: Option<&CodexSessionFilters>) -> (r:
    bool)
    ensures
        r == spec_session_allowed(flags, opt_filters(filters)),
{
    if should_hide_permissions_sessions(filters) && flags.is_permissions {
        return false;
    }
    if should_hide_git_commit_subagent_sessions(filters) && flags.is_git_commit_worker {
        return false;
    }
    true
}

/// Whether filtering reads the head of each session's file: the filters
/// apply and hide at least one kind of session.
pub open spec fn spec_reads_heads(f: Option<CodexSessionFilters>) -> bool {
    spec_should_apply(f) && (spec_hide_permissions(f) || spec_hide_git_commit(f))
}

/// `h` is what `read_head` may give for the file at `path`.
pub open spec fn head_read_by<G: Fn(&String) -> Vec<String>>(
    read_head: G,
    path: Seq<char>,
    h: Seq<String>,
) -> bool {
    exists|p: String, v: Vec<String>|
        p@ == path && v@ == h && #[trigger] call_ensures(read_head, (&p,), v)
}

/// `hs` holds, for each session, the leading lines of its file as
/// `read_head` gave them, where the filters read files at all.
pub open spec fn heads_fit<G: Fn(&String) -> Vec<String>>(
    read_head: G,
    s: Seq<SessionView>,
    hs: Seq<Seq<String>>,
    f: Option<CodexSessionFilters>,
) -> bool {
    &&& hs.len() == s.len()
    &&& spec_reads_heads(f) ==> forall|i: int|
        0 <= i < s.len() ==> head_read_by(read_head, s[i].file_path, #[trigger] hs[i])
}

/// `read_head` may be called on any path.
pub open spec fn reads_any_path<G: Fn(&String) -> Vec<String>>(read_head: G) -> bool {
    forall|p: String| call_requires(read_head, (&p,))
}

/// The sessions that the filters leave in the list, in their order, where
/// `heads` holds the leading lines of each session's file as read when
/// filtering.
pub open spec fn spec_filter_sessions(
    s: Seq<SessionView>,
    heads: Seq<Seq<String>>,
    f: Option<CodexSessionFilters>,
) -> Seq<SessionView>
    decreases s.len(),
{
    if s.len() == 0 {
        Seq::empty()
    } else {
        let rest = spec_filter_sessions(s.drop_last(), heads.drop_last(), f);
        if !spec_should_apply(f) || spec_session_allowed(spec_session_flags(heads.last()), f) {
            rest.push(s.last())
        } else {
            rest
        }
    }
}

pub open spec fn session_views(v: Seq<ClaudeSession>) -> Seq<SessionView> {
    v.map_values(|s: ClaudeSession| s@)
}

/// The sessions that the filters leave in the list. Where the filters hide
/// a kind of session, the leading lines of each session's file are read with
/// `read_head` when the session is looked at (what comes back is not stated:
/// it is what the file holds then).
pub fn filter_codex_sessions<G: Fn(&String) -> Vec<String>>(
    sessions: &Vec<ClaudeSession>,
    filters: Option<&CodexSessionFilters>,
    read_head: &G,
) -> (r: Vec<ClaudeSession>)
    requires
        reads_any_path(*read_head),
    ensures
        exists|hs: Seq<Seq<String>>|
            heads_fit(*read_head, session_views(sessions@), hs, opt_filters(filters))
                && session_views(r@) == spec_filter_sessions(
                session_views(sessions@),
                hs,
                opt_filters(filters),
            ),
{
    let ghost sv = session_views(sessions@);
    let ghost f = opt_filters(filters);
    let apply = should_apply_codex_filters(filters);
    let reads = apply && (should_hide_permissions_sessions(filters)
        || should_hide_git_commit_subagent_sessions(filters));
    let mut out: Vec<ClaudeSession> = Vec::new();
    let ghost mut hs: Seq<Seq<String>> = Seq::empty();
    let mut i: usize = 0;
    assert(sv.take(0) =~= Seq::<SessionView>::empty());
    assert(session_views(out@) =~= Seq::<SessionView>::empty());
    while i < sessions.len()
        invariant
            i <= sessions.len(),
            sv == session_views(sessions@),
            sv.len() == sessions@.len(),
            f == opt_filters(filters),
            apply == spec_should_apply(f),
            reads == spec_reads_heads(f),
            reads_any_path(*read_head),
            hs.len() == i,
            heads_fit(*read_head, sv.take(i as int), hs, f),
            session_views(out@) == spec_filter_sessions(sv.take(i as int), hs, f),
        decreases sessions.len() - i,
    {
        assert(sv.take(i + 1).drop_last() =~= sv.take(i as int));
        assert(sv.take(i + 1).last() == sessions@[i as int]@);
        let ghost hs_old = hs;
        let keep = if !apply {
            proof {
                hs = hs.push(Seq::empty());
            }
            true
        } else if !reads {
            proof {
                hs = hs.push(Seq::empty());
            }
            true
        } else {
            let head = read_head(&sessions[i].file_path);
            proof {
                assert(head_read_by(*read_head, sv[i as int].file_path, head@));
                hs = hs.push(head@);
            }
            codex_session_allowed(session_flags(&head), filters)
        };
        assert(hs.drop_last() =~= hs_old);
        assert(heads_fit(*read_head, sv.take(i + 1), hs, f)) by {
            if reads {
                assert forall|j: int| 0 <= j < i + 1 implies head_read_by(
                    *read_head,
                    sv.take(i + 1)[j].file_path,
                    #[trigger] hs[j],
                ) by {
                    if j < i {
                        assert(sv.take(i + 1)[j] == sv.take(i as int)[j]);
                    }
                }
            }
        }
        if keep {
            let ghost before = out@;
            out.push(sessions[i].duplicate());
            assert(session_views(out@) =~= session_views(before).push(sessions@[i as int]@));
        }
        i = i + 1;
    }
    assert(sv.take(sessions.len() as int) =~= sv);
    out
}

// ---------------------------------------------------------------------------
// Ordering sessions and projects
// ---------------------------------------------------------------------------

pub open spec fn text_key(t: Seq<char>) -> KeyView {
    KeyView { instant: None, text: t }
}

pub open spec fn session_keys(s: Seq<SessionView>) -> Seq<KeyView> {
    s.map_values(|x: SessionView| text_key(x.last_modified))
}

/// The sessions, the most recently modified first (by the text of the time);
/// sessions with the same time keep their order.
pub open spec fn sessions_newest_first(s: Seq<SessionView>) -> Seq<SessionView> {
    reorder(s, newest_first(session_keys(s)))
}

pub open spec fn project_keys(p: Seq<ProjectView>) -> Seq<KeyView> {
    p.map_values(|x: ProjectView| text_key(x.last_modified))
}

/// The projects, the most recently modified first; projects with the same
/// time keep their order.
pub open spec fn projects_newest_first(p: Seq<ProjectView>) -> Seq<ProjectView> {
    reorder(p, newest_first(project_keys(p)))
}

/// The sessions come the most recently modified first.
pub open spec fn sessions_sorted(s: Seq<SessionView>) -> bool {
    forall|a: int, b: int|
        0 <= a < b < s.len() ==> text_order(#[trigger] s[a].last_modified, #[trigger] s[b].last_modified)
            >= 0
}

fn sort_sessions(sessions: Vec<ClaudeSession>) -> (r: Vec<ClaudeSession>)
    ensures
        session_views(r@) == sessions_newest_first(session_views(sessions@)),
        sessions_sorted(session_views(r@)),
{
    let mut keys: Vec<SortKey> = Vec::new();
    let mut i: usize = 0;
    while i < sessions.len()
        invariant
            i <= sessions.len(),
            keys.len() == i,
            forall|j: int|
                0 <= j < i ==> #[trigger] keys@[j]@ == text_key(sessions@[j].last_modified@),
        decreases sessions.len() - i,
    {
        keys.push(SortKey { instant: None, text: chars_of(sessions[i].last_modified.as_str()) });
        i = i + 1;
    }
    let ghost sv = session_views(sessions@);
    assert(keys_view(keys@) =~= session_keys(sv));
    let order = sorted_positions(&keys);
    proof {
        lemma_top_all_distinct(keys_view(keys@), keys@.len() as int, order@);
    }
    let r = pick_in_order(sessions, &order);
    assert(session_views(r@) =~= reorder(sv, order@));
    proof {
        crate::sort::lemma_reorder_sorted(keys_view(keys@), keys@.len() as int, keys@.len() as int, order@);
        let rv = session_views(r@);
        assert forall|a: int, b: int| 0 <= a < b < rv.len() implies text_order(
            #[trigger] rv[a].last_modified,
            #[trigger] rv[b].last_modified,
        ) >= 0 by {
            assert(rv[a] == sv[order@[a] as int]);
            assert(rv[b] == sv[order@[b] as int]);
            assert(keys_view(keys@)[order@[a] as int] == text_key(sv[order@[a] as int].last_modified));
            assert(keys_view(keys@)[order@[b] as int] == text_key(sv[order@[b] as int].last_modified));
        }
    }
    r
}

fn sort_projects(projects: Vec<ClaudeProject>) -> (r: Vec<ClaudeProject>)
    ensures
        project_views(r@) == projects_newest_first(project_views(projects@)),
        forall|a: int, b: int|
            0 <= a < b < r.len() ==> text_order(
                #[trigger] r@[a].last_modified@,
                #[trigger] r@[b].last_modified@,
            ) >= 0,
{
    let mut keys: Vec<SortKey> = Vec::new();
    let mut i: usize = 0;
    while i < projects.len()
        invariant
            i <= projects.len(),
            keys.len() == i,
            forall|j: int|
                0 <= j < i ==> #[trigger] keys@[j]@ == text_key(projects@[j].last_modified@),
        decreases projects.len() - i,
    {
        keys.push(SortKey { instant: None, text: chars_of(projects[i].last_modified.as_str()) });
        i = i + 1;
    }
    let ghost pv = project_views(projects@);
    assert(keys_view(keys@) =~= project_keys(pv));
    let order = sorted_positions(&keys);
    proof {
        lemma_top_all_distinct(keys_view(keys@), keys@.len() as int, order@);
    }
    let r = pick_in_order(projects, &order);
    assert(project_views(r@) =~= reorder(pv, order@));
    proof {
        crate::sort::lemma_reorder_sorted(keys_view(keys@), keys@.len() as int, keys@.len() as int, order@);
        assert forall|a: int, b: int| 0 <= a < b < r.len() implies text_order(
            #[trigger] r@[a].last_modified@,
            #[trigger] r@[b].last_modified@,
        ) >= 0 by {
            assert(r@[a]@ == pv[order@[a] as int]);
            assert(r@[b]@ == pv[order@[b] as int]);
            assert(keys_view(keys@)[order@[a] as int] == text_key(pv[order@[a] as int].last_modified));
            assert(keys_view(keys@)[order@[b] as int] == text_key(pv[order@[b] as int].last_modified));
        }
    }
    r
}

pub open spec fn project_views(v: Seq<ClaudeProject>) -> Seq<ProjectView> {
    v.map_values(|p: ClaudeProject| p@)
}

// ---------------------------------------------------------------------------
// Projects
// ---------------------------------------------------------------------------

/// The number of messages of the sessions, or `usize::MAX` where the total
/// does not fit.
pub open spec fn total_messages(s: Seq<SessionView>) -> usize
    decreases s.len(),
{
    if s.len() == 0 {
        0
    } else {
        let a = total_messages(s.drop_last());
        if a + s.last().message_count > usize::MAX {
            usize::MAX
        } else {
            (a + s.last().message_count) as usize
        }
    }
}

/// The latest modification time of the sessions (the greatest text), or the
/// empty text for no session.
pub open spec fn latest_modified(s: Seq<SessionView>) -> Seq<char>
    decreases s.len(),
{
    if s.len() == 0 {
        Seq::empty()
    } else {
        let m = latest_modified(s.drop_last());
        if text_order(s.last().last_modified, m) >= 0 {
            s.last().last_modified
        } else {
            m
        }
    }
}

/// The project of the sessions that ran in `cwd`.
pub open spec fn spec_project(cwd: Seq<char>, sessions: Seq<SessionView>) -> ProjectView {
    ProjectView {
        name: spec_project_name_from_cwd(cwd),
        path: "codex://"@ + cwd,
        actual_path: cwd,
        session_count: sessions.len() as usize,
        message_count: total_messages(sessions),
        last_modified: latest_modified(sessions),
        git_info: None,
        provider: Some("codex"@),
        storage_type: None,
        custom_directory_label: None,
    }
}

/// One project for each working directory with at least one session, in
/// the order of the directories.
pub open spec fn spec_projects_in_order(groups: Seq<(Seq<char>, Seq<SessionView>)>) -> Seq<
    ProjectView,
>
    decreases groups.len(),
{
    if groups.len() == 0 {
        Seq::empty()
    } else {
        let rest = spec_projects_in_order(groups.drop_last());
        if groups.last().1.len() == 0 {
            rest
        } else {
            rest.push(spec_project(groups.last().0, groups.last().1))
        }
    }
}

/// The projects of the sessions grouped by working directory, the most
/// recently modified first.
pub open spec fn spec_projects_from_groups(groups: Seq<(Seq<char>, Seq<SessionView>)>) -> Seq<
    ProjectView,
> {
    projects_newest_first(spec_projects_in_order(groups))
}

pub open spec fn group_view(g: (String, Vec<ClaudeSession>)) -> (Seq<char>, Seq<SessionView>) {
    (g.0@, session_views(g.1@))
}

pub open spec fn groups_view(v: Seq<(String, Vec<ClaudeSession>)>) -> Seq<
    (Seq<char>, Seq<SessionView>),
> {
    v.map_values(|g: (String, Vec<ClaudeSession>)| group_view(g))
}

fn build_project(cwd: &str, sessions: &Vec<ClaudeSession>) -> (r: ClaudeProject)
    ensures
        r@ == spec_project(cwd@, session_views(sessions@)),
{
    let ghost sv = session_views(sessions@);
    let mut count: usize = 0;
    let mut latest: &str = "";
    let mut i: usize = 0;
    proof {
        reveal_strlit("");
    }
    assert(latest@ =~= Seq::<char>::empty());
    assert(sv.take(0) =~= Seq::<SessionView>::empty());
    while i < sessions.len()
        invariant
            i <= sessions.len(),
            sv == session_views(sessions@),
            sv.len() == sessions@.len(),
            count == total_messages(sv.take(i as int)),
            latest@ == latest_modified(sv.take(i as int)),
        decreases sessions.len() - i,
    {
        assert(sv.take(i + 1).drop_last() =~= sv.take(i as int));
        assert(sv.take(i + 1).last() == sessions@[i as int]@);
        count = count.saturating_add(sessions[i].message_count);
        if !crate::codex::threads::text_after(latest, sessions[i].last_modified.as_str()) {
            proof {
                crate::sort::lemma_text_order_antisym(latest@, sessions@[i as int].last_modified@);
            }
            latest = sessions[i].last_modified.as_str();
        } else {
            proof {
                crate::sort::lemma_text_order_antisym(latest@, sessions@[i as int].last_modified@);
            }
        }
        i = i + 1;
    }
    assert(sv.take(sessions.len() as int) =~= sv);
    let mut path: Vec<char> = Vec::new();
    crate::text::push_str(&mut path, "codex://");
    crate::text::push_str(&mut path, cwd);
    ClaudeProject {
        name: project_name_from_cwd(cwd),
        path: string_from_chars(&path),
        actual_path: cwd.to_owned(),
        session_count: sessions.len(),
        message_count: count,
        last_modified: latest.to_owned(),
        git_info: None,
        provider: Some("codex".to_owned()),
        storage_type: None,
        custom_directory_label: None,
    }
}

/// The projects of the sessions grouped by working directory: one for each
/// directory with sessions, the most recently modified first.
pub fn projects_from_sessions_by_cwd(groups: &Vec<(String, Vec<ClaudeSession>)>) -> (r: Vec<
    ClaudeProject,
>)
    ensures
        project_views(r@) == spec_projects_from_groups(groups_view(groups@)),
        forall|a: int, b: int|
            0 <= a < b < r.len() ==> text_order(
                #[trigger] r@[a].last_modified@,
                #[trigger] r@[b].last_modified@,
            ) >= 0,
{
    let ghost gv = groups_view(groups@);
    let mut projects: Vec<ClaudeProject> = Vec::new();
    let mut i: usize = 0;
    assert(gv.take(0) =~= Seq::<(Seq<char>, Seq<SessionView>)>::empty());
    assert(project_views(projects@) =~= Seq::<ProjectView>::empty());
    while i < groups.len()
        invariant
            i <= groups.len(),
            gv == groups_view(groups@),
            gv.len() == groups@.len(),
            project_views(projects@) == spec_projects_in_order(gv.take(i as int)),
        decreases groups.len() - i,
    {
        assert(gv.take(i + 1).drop_last() =~= gv.take(i as int));
        assert(gv.take(i + 1).last() == group_view(groups@[i as int]));
        if groups[i].1.len() > 0 {
            let ghost before = projects@;
            let p = build_project(groups[i].0.as_str(), &groups[i].1);
            projects.push(p);
            assert(project_views(projects@) =~= project_views(before).push(p@));
        }
        i = i + 1;
    }
    assert(gv.take(groups.len() as int) =~= gv);
    sort_projects(projects)
}

// ---------------------------------------------------------------------------
// Sessions of the index
// ---------------------------------------------------------------------------

/// The session list entry of a rollout file: a renamed thread shows its
/// name, others the summary of the file.
pub open spec fn spec_session_of(
    info: SessionInfoView,
    cwd: Seq<char>,
    titles: Seq<TitleEntry>,
) -> SessionView {
    let title = title_of(titles, info.session_id);
    SessionView {
        session_id: info.file_path,
        actual_session_id: info.session_id,
        file_path: info.file_path,
        project_name: spec_project_name_from_cwd(cwd),
        message_count: info.message_count as usize,
        first_message_time: info.first_message_time,
        last_message_time: info.last_message_time,
        last_modified: info.last_modified,
        has_tool_use: info.has_tool_use,
        has_errors: false,
        summary: if title is Some {
            title
        } else {
            info.summary
        },
        is_renamed: title is Some,
        provider: Some("codex"@),
        storage_type: None,
        entrypoint: None,
    }
}

pub fn session_info_to_claude_session(info: SessionInfo, cwd: &str, thread_titles: &ThreadTitles) -> (r:
    ClaudeSession)
    ensures
        r@ == spec_session_of(info@, cwd@, thread_titles@),
{
    let thread_title: Option<String> = match thread_titles.get(info.session_id.as_str()) {
        Some(t) => Some(t.name.clone()),
        None => None,
    };
    let is_renamed = thread_title.is_some();
    let summary = match thread_title {
        Some(t) => Some(t),
        None => info.summary,
    };
    ClaudeSession {
        session_id: info.file_path.clone(),
        actual_session_id: info.session_id,
        file_path: info.file_path,
        project_name: project_name_from_cwd(cwd),
        message_count: info.message_count,
        first_message_time: info.first_message_time,
        last_message_time: info.last_message_time,
        last_modified: info.last_modified,
        has_tool_use: info.has_tool_use,
        has_errors: false,
        summary,
        is_renamed,
        provider: Some("codex".to_owned()),
        storage_type: None,
        entrypoint: None,
    }
}

/// The sessions of one working directory.
pub struct SessionGroup {
    pub cwd: String,
    pub sessions: Vec<ClaudeSession>,
}

pub open spec fn sgroup_view(g: SessionGroup) -> (Seq<char>, Seq<SessionView>) {
    (g.cwd@, session_views(g.sessions@))
}

pub open spec fn sgroups_view(v: Seq<SessionGroup>) -> Seq<(Seq<char>, Seq<SessionView>)> {
    v.map_values(|g: SessionGroup| sgroup_view(g))
}

/// The sessions and projects of a Codex home, as read at one time.
pub struct CodexSessionIndex {
    pub base_path: String,
    pub thread_index_modified: Option<u128>,
    pub projects: Vec<ClaudeProject>,
    pub sessions_by_cwd: Vec<SessionGroup>,
}

pub struct IndexView {
    pub base_path: Seq<char>,
    pub thread_index_modified: Option<u128>,
    pub projects: Seq<ProjectView>,
    pub groups: Seq<(Seq<char>, Seq<SessionView>)>,
}

impl View for CodexSessionIndex {
    type V = IndexView;

    open spec fn view(&self) -> IndexView {
        IndexView {
            base_path: self.base_path@,
            thread_index_modified: self.thread_index_modified,
            projects: project_views(self.projects@),
            groups: sgroups_view(self.sessions_by_cwd@),
        }
    }
}

/// The position of the group of `cwd`.
pub open spec fn group_pos<T>(groups: Seq<(Seq<char>, T)>, cwd: Seq<char>) -> Option<int>
    decreases groups.len(),
{
    if groups.len() == 0 {
        None
    } else if groups.last().0 == cwd {
        Some(groups.len() - 1)
    } else {
        group_pos(groups.drop_last(), cwd)
    }
}

pub proof fn lemma_group_pos<T>(groups: Seq<(Seq<char>, T)>, cwd: Seq<char>)
    ensures
        group_pos(groups, cwd) matches Some(p) ==> 0 <= p < groups.len() && groups[p].0 == cwd,
        group_pos(groups, cwd) is None ==> forall|q: int|
            0 <= q < groups.len() ==> #[trigger] groups[q].0 != cwd,
    decreases groups.len(),
{
    if groups.len() > 0 {
        lemma_group_pos(groups.drop_last(), cwd);
        if group_pos(groups, cwd) is None {
            assert forall|q: int| 0 <= q < groups.len() implies #[trigger] groups[q].0 != cwd by {
                if q < groups.len() - 1 {
                    assert(groups.drop_last()[q] == groups[q]);
                }
            }
        }
    }
}

/// No working directory has two groups.
pub open spec fn cwds_distinct<T>(groups: Seq<(Seq<char>, T)>) -> bool {
    forall|a: int, b: int| 0 <= a < b < groups.len() ==> #[trigger] groups[a].0 != #[trigger] groups[b].0
}

/// The sessions of the index that ran in `cwd` (none for an unknown one).
pub open spec fn sessions_of_cwd(ix: IndexView, cwd: Seq<char>) -> Seq<SessionView> {
    match group_pos(ix.groups, cwd) {
        Some(p) => ix.groups[p].1,
        None => Seq::empty(),
    }
}

fn find_group(groups: &Vec<SessionGroup>, cwd: &str) -> (r: Option<usize>)
    ensures
        r matches Some(p) ==> group_pos(sgroups_view(groups@), cwd@) == Some(p as int) && p
            < groups.len(),
        r is None ==> group_pos(sgroups_view(groups@), cwd@) is None,
{
    let ghost gv = sgroups_view(groups@);
    let n = groups.len();
    let mut i: usize = n;
    assert(gv.take(n as int) =~= gv);
    while i > 0
        invariant
            i <= n,
            n == groups.len(),
            gv == sgroups_view(groups@),
            group_pos(gv, cwd@) == group_pos(gv.take(i as int), cwd@),
        decreases i,
    {
        assert(gv.take(i as int).last() == sgroup_view(groups@[i - 1]));
        assert(gv.take(i as int).drop_last() =~= gv.take(i - 1));
        if crate::text::str_eq(groups[i - 1].cwd.as_str(), cwd) {
            return Some(i - 1);
        }
        i = i - 1;
    }
    None
}

impl CodexSessionIndex {
    /// Each working directory has one group, whose sessions come the most
    /// recently modified first.
    pub open spec fn well_formed(&self) -> bool {
        &&& cwds_distinct(self@.groups)
        &&& forall|g: int| 0 <= g < self@.groups.len() ==> sessions_sorted(#[trigger] self@.groups[g].1)
    }

    /// The sessions of `cwd`, as the filters leave them (the files' leading
    /// lines read with `read_head` where the filters need them).
    pub fn sessions_for<G: Fn(&String) -> Vec<String>>(
        &self,
        cwd: &str,
        filters: Option<&CodexSessionFilters>,
        read_head: &G,
    ) -> (r: Vec<ClaudeSession>)
        requires
            reads_any_path(*read_head),
        ensures
            exists|hs: Seq<Seq<String>>|
                heads_fit(*read_head, sessions_of_cwd(self@, cwd@), hs, opt_filters(filters))
                    && session_views(r@) == spec_filter_sessions(
                    sessions_of_cwd(self@, cwd@),
                    hs,
                    opt_filters(filters),
                ),
    {
        match find_group(&self.sessions_by_cwd, cwd) {
            Some(p) => {
                assert(sessions_of_cwd(self@, cwd@) == session_views(self.sessions_by_cwd@[p as int].sessions@));
                filter_codex_sessions(&self.sessions_by_cwd[p].sessions, filters, read_head)
            },
            None => {
                assert(sessions_of_cwd(self@, cwd@) == Seq::<SessionView>::empty());
                let r: Vec<ClaudeSession> = Vec::new();
                assert(session_views(r@) =~= Seq::<SessionView>::empty());
                assert(heads_fit(*read_head, Seq::<SessionView>::empty(), Seq::<Seq<String>>::empty(), opt_filters(filters)));
                assert(session_views(r@) == spec_filter_sessions(
                    Seq::<SessionView>::empty(),
                    Seq::<Seq<String>>::empty(),
                    opt_filters(filters),
                ));
                r
            },
        }
    }
}

// ---------------------------------------------------------------------------
// Projects as the filters leave them
// ---------------------------------------------------------------------------

/// Each working directory with the sessions the filters leave (`hss` holds
/// the leading lines of each session's file, group by group); directories
/// left without sessions are dropped.
pub open spec fn spec_filtered_groups(
    groups: Seq<(Seq<char>, Seq<SessionView>)>,
    hss: Seq<Seq<Seq<String>>>,
    f: Option<CodexSessionFilters>,
) -> Seq<(Seq<char>, Seq<SessionView>)>
    decreases groups.len(),
{
    if groups.len() == 0 {
        Seq::empty()
    } else {
        let rest = spec_filtered_groups(groups.drop_last(), hss.drop_last(), f);
        let kept = spec_filter_sessions(groups.last().1, hss.last(), f);
        if kept.len() == 0 {
            rest
        } else {
            rest.push((groups.last().0, kept))
        }
    }
}

/// `hss` holds, group by group, the leading lines of each session's file as
/// `read_head` gave them, where the filters read files at all.
pub open spec fn groups_fit<G: Fn(&String) -> Vec<String>>(
    read_head: G,
    groups: Seq<(Seq<char>, Seq<SessionView>)>,
    hss: Seq<Seq<Seq<String>>>,
    f: Option<CodexSessionFilters>,
) -> bool {
    &&& hss.len() == groups.len()
    &&& forall|g: int| 0 <= g < groups.len() ==> heads_fit(read_head, groups[g].1, #[trigger] hss[g], f)
}

/// The projects of the index as the filters leave them.
pub open spec fn spec_filter_projects(
    ix: IndexView,
    hss: Seq<Seq<Seq<String>>>,
    f: Option<CodexSessionFilters>,
) -> Seq<ProjectView> {
    if !spec_should_apply(f) {
        ix.projects
    } else {
        spec_projects_from_groups(spec_filtered_groups(ix.groups, hss, f))
    }
}

fn copy_projects(v: &Vec<ClaudeProject>) -> (r: Vec<ClaudeProject>)
    ensures
        project_views(r@) == project_views(v@),
{
    let mut out: Vec<ClaudeProject> = Vec::new();
    let mut i: usize = 0;
    while i < v.len()
        invariant
            i <= v.len(),
            out.len() == i,
            forall|j: int| 0 <= j < i ==> #[trigger] out@[j]@ == v@[j]@,
        decreases v.len() - i,
    {
        out.push(v[i].duplicate());
        i = i + 1;
    }
    assert(project_views(out@) =~= project_views(v@));
    out
}

/// The projects of the index, as the filters leave them (the files' leading
/// lines read with `read_head` where the filters need them).
pub fn filter_codex_projects<G: Fn(&String) -> Vec<String>>(
    index: &CodexSessionIndex,
    filters: Option<&CodexSessionFilters>,
    read_head: &G,
) -> (r: Vec<ClaudeProject>)
    requires
        reads_any_path(*read_head),
    ensures
        exists|hss: Seq<Seq<Seq<String>>>|
            groups_fit(*read_head, index@.groups, hss, opt_filters(filters)) && project_views(r@)
                == spec_filter_projects(index@, hss, opt_filters(filters)),
{
    let ghost f = opt_filters(filters);
    let ghost gv = index@.groups;
    if !should_apply_codex_filters(filters) {
        let r = copy_projects(&index.projects);
        let ghost hss = Seq::new(gv.len(), |g: int| Seq::new(gv[g].1.len(), |k: int| Seq::<String>::empty()));
        assert(groups_fit(*read_head, gv, hss, f));
        assert(project_views(r@) == spec_filter_projects(index@, hss, f));
        return r;
    }
    let mut groups: Vec<(String, Vec<ClaudeSession>)> = Vec::new();
    let ghost mut hss: Seq<Seq<Seq<String>>> = Seq::empty();
    let mut i: usize = 0;
    assert(gv.take(0) =~= Seq::<(Seq<char>, Seq<SessionView>)>::empty());
    assert(groups_view(groups@) =~= Seq::<(Seq<char>, Seq<SessionView>)>::empty());
    while i < index.sessions_by_cwd.len()
        invariant
            i <= index.sessions_by_cwd.len(),
            gv == index@.groups,
            gv.len() == index.sessions_by_cwd@.len(),
            f == opt_filters(filters),
            reads_any_path(*read_head),
            groups_fit(*read_head, gv.take(i as int), hss, f),
            groups_view(groups@) == spec_filtered_groups(gv.take(i as int), hss, f),
        decreases index.sessions_by_cwd.len() - i,
    {
        assert(gv.take(i + 1).drop_last() =~= gv.take(i as int));
        assert(gv.take(i + 1).last() == sgroup_view(index.sessions_by_cwd@[i as int]));
        let kept = filter_codex_sessions(&index.sessions_by_cwd[i].sessions, filters, read_head);
        let ghost hss_old = hss;
        proof {
            let hs = choose|hs: Seq<Seq<String>>|
                heads_fit(*read_head, session_views(index.sessions_by_cwd@[i as int].sessions@), hs, f)
                    && session_views(kept@) == spec_filter_sessions(
                    session_views(index.sessions_by_cwd@[i as int].sessions@),
                    hs,
                    f,
                );
            hss = hss.push(hs);
            assert(hss.drop_last() =~= hss_old);
            assert forall|g: int| 0 <= g < i + 1 implies heads_fit(
                *read_head,
                gv.take(i + 1)[g].1,
                #[trigger] hss[g],
                f,
            ) by {
                if g < i {
                    assert(gv.take(i + 1)[g] == gv.take(i as int)[g]);
                }
            }
        }
        if kept.len() > 0 {
            let ghost before = groups@;
            let cwd = index.sessions_by_cwd[i].cwd.clone();
            groups.push((cwd, kept));
            assert(groups_view(groups@) =~= groups_view(before).push(
                (index.sessions_by_cwd@[i as int].cwd@, session_views(kept@)),
            ));
        }
        i = i + 1;
    }
    assert(gv.take(index.sessions_by_cwd.len() as int) =~= gv);
    let r = projects_from_sessions_by_cwd(&groups);
    assert(groups_fit(*read_head, gv, hss, f));
    assert(project_views(r@) == spec_filter_projects(index@, hss, f));
    r
}

// ---------------------------------------------------------------------------
// Building the index
// ---------------------------------------------------------------------------

/// One file found under the session directories.
pub struct RolloutFile {
    pub path: String,
    /// The lines of the file, or nothing where it could not be read.
    pub lines: Option<Vec<Vec<u8>>>,
    /// When the file was last modified (RFC 3339), or the time of reading
    /// where that is not known.
    pub modified: String,
}

/// What the index is built from: a Codex home as read from disk.
pub struct CodexDisk {
    pub base_path: String,
    /// Whether `sessions` or `archived_sessions` is a directory there.
    pub has_session_dirs: bool,
    /// When the thread title index was last modified (nanoseconds since the epoch).
    pub thread_index_modified: Option<u128>,
    /// The text of the thread title index, where it could be read.
    pub titles_content: Option<String>,
    /// The files under the session directories, in the order of the walk.
    pub files: Vec<RolloutFile>,
}

/// A Unix path is absolute where it starts at the root.
pub open spec fn is_absolute_path(p: Seq<char>) -> bool {
    p.len() > 0 && p[0] == '/'
}

pub open spec fn absolute_path_error(label: Seq<char>, p: Seq<char>) -> Seq<char> {
    label + " must be an absolute path: "@ + p
}

/// Adds `item` to the group of `cwd`, or opens a group for it.
pub open spec fn spec_add_to_group<T>(groups: Seq<(Seq<char>, Seq<T>)>, cwd: Seq<char>, item: T) -> Seq<
    (Seq<char>, Seq<T>),
> {
    match group_pos(groups, cwd) {
        Some(p) => groups.update(p, (cwd, groups[p].1.push(item))),
        None => groups.push((cwd, seq![item])),
    }
}

pub open spec fn parsed_rollout(lines: Seq<Vec<u8>>) -> Seq<Option<Json>> {
    lines.map_values(|l: Vec<u8>| simd_json_parsed(l@))
}

/// The working directory of a session ("unknown" where it names none).
pub open spec fn cwd_of(info: SessionInfoView) -> Seq<char> {
    match info.cwd {
        Some(c) => c,
        None => "unknown"@,
    }
}

/// One found file: a readable rollout file joins the group of its working
/// directory.
pub open spec fn spec_index_file(
    groups: Seq<(Seq<char>, Seq<SessionView>)>,
    f: RolloutFile,
    titles: Seq<TitleEntry>,
) -> Seq<(Seq<char>, Seq<SessionView>)> {
    if !spec_is_rollout_jsonl(f.path@) {
        groups
    } else {
        match f.lines {
            None => groups,
            Some(lines) => {
                let info = spec_session_info(parsed_rollout(lines@), f.path@, f.modified@);
                let cwd = cwd_of(info);
                spec_add_to_group(groups, cwd, spec_session_of(info, cwd, titles))
            },
        }
    }
}

pub open spec fn spec_index_files(files: Seq<RolloutFile>, titles: Seq<TitleEntry>) -> Seq<
    (Seq<char>, Seq<SessionView>),
>
    decreases files.len(),
{
    if files.len() == 0 {
        Seq::empty()
    } else {
        spec_index_file(spec_index_files(files.drop_last(), titles), files.last(), titles)
    }
}

/// Each group's sessions, the most recently modified first.
pub open spec fn spec_sort_groups(groups: Seq<(Seq<char>, Seq<SessionView>)>) -> Seq<
    (Seq<char>, Seq<SessionView>),
> {
    groups.map_values(
        |g: (Seq<char>, Seq<SessionView>)| (g.0, sessions_newest_first(g.1)),
    )
}

pub open spec fn titles_from(content: Option<String>) -> Seq<TitleEntry> {
    match content {
        Some(c) => spec_thread_titles(c@),
        None => Seq::empty(),
    }
}

/// The index of a Codex home: refused for a relative base path; empty where
/// there is no session directory; else every readable rollout file in its
/// working directory's group (groups in the order the directories are first
/// met, sessions the most recently modified first) and their projects.
pub open spec fn spec_build_index(d: CodexDisk) -> Result<IndexView, Seq<char>> {
    if !is_absolute_path(d.base_path@) {
        Err(absolute_path_error("Codex base path"@, d.base_path@))
    } else if !d.has_session_dirs {
        Ok(
            IndexView {
                base_path: d.base_path@,
                thread_index_modified: d.thread_index_modified,
                projects: Seq::empty(),
                groups: Seq::empty(),
            },
        )
    } else {
        let groups = spec_sort_groups(spec_index_files(d.files@, titles_from(d.titles_content)));
        Ok(
            IndexView {
                base_path: d.base_path@,
                thread_index_modified: d.thread_index_modified,
                projects: spec_projects_from_groups(groups),
                groups,
            },
        )
    }
}

pub proof fn lemma_add_to_group_distinct<T>(groups: Seq<(Seq<char>, Seq<T>)>, cwd: Seq<char>, item: T)
    requires
        cwds_distinct(groups),
    ensures
        cwds_distinct(spec_add_to_group(groups, cwd, item)),
        spec_add_to_group(groups, cwd, item).len() >= groups.len(),
{
    lemma_group_pos(groups, cwd);
    let r = spec_add_to_group(groups, cwd, item);
    assert forall|a: int, b: int| 0 <= a < b < r.len() implies #[trigger] r[a].0 != #[trigger] r[b].0 by {
        if group_pos(groups, cwd) is None && b == groups.len() {
            assert(r[a] == groups[a]);
        }
    }
}

/// `Path::new(p).is_absolute()` for Unix paths, as the base path check.
pub fn require_absolute_path(path: &str, label: &str) -> (r: Result<(), String>)
    ensures
        r is Ok <==> is_absolute_path(path@),
        r matches Err(m) ==> m@ == absolute_path_error(label@, path@),
{
    let cs = chars_of(path);
    if cs.len() > 0 && cs[0] == '/' {
        Ok(())
    } else {
        let mut msg: Vec<char> = Vec::new();
        crate::text::push_str(&mut msg, label);
        crate::text::push_str(&mut msg, " must be an absolute path: ");
        crate::text::push_str(&mut msg, path);
        Err(string_from_chars(&msg))
    }
}

fn add_to_group(groups: &mut Vec<SessionGroup>, cwd: String, item: ClaudeSession)
    requires
        cwds_distinct(sgroups_view(old(groups)@)),
    ensures
        sgroups_view(final(groups)@) == spec_add_to_group(
            sgroups_view(old(groups)@),
            cwd@,
            item@,
        ),
        cwds_distinct(sgroups_view(final(groups)@)),
{
    let ghost gv = sgroups_view(groups@);
    proof {
        lemma_add_to_group_distinct(gv, cwd@, item@);
        lemma_group_pos(gv, cwd@);
    }
    let found = find_group(groups, cwd.as_str());
    if let Some(p) = found {
        let ghost old_items = session_views(groups@[p as int].sessions@);
        let ghost iv = item@;
        let mut g = SessionGroup { cwd: String::new(), sessions: Vec::new() };
        std::mem::swap(&mut g, &mut groups[p]);
        g.sessions.push(item);
        assert(session_views(g.sessions@) =~= old_items.push(iv));
        let ghost mid = groups@;
        groups.set(p, g);
        assert(sgroups_view(groups@) =~= gv.update(p as int, (cwd@, old_items.push(iv)))) by {
            assert forall|q: int| 0 <= q < groups@.len() implies #[trigger] sgroups_view(groups@)[q]
                == gv.update(p as int, (cwd@, old_items.push(iv)))[q] by {
                if q != p {
                    assert(groups@[q] == mid[q]);
                }
            }
        }
    } else {
        assert(group_pos(gv, cwd@) is None);
        let mut sessions: Vec<ClaudeSession> = Vec::new();
        let ghost iv = item@;
        sessions.push(item);
        assert(session_views(sessions@) =~= seq![iv]);
        let ghost cw = cwd@;
        groups.push(SessionGroup { cwd, sessions });
        assert(sgroups_view(groups@) =~= gv.push((cw, seq![iv])));
    }
}

fn index_titles(content: &Option<String>) -> (r: ThreadTitles)
    ensures
        r@ == titles_from(*content),
        r.well_formed(),
{
    match content {
        Some(c) => load_thread_titles_from_index(c.as_str()),
        None => ThreadTitles::new(),
    }
}

fn group_files(files: &Vec<RolloutFile>, titles: &ThreadTitles) -> (r: Vec<SessionGroup>)
    ensures
        sgroups_view(r@) == spec_index_files(files@, titles@),
        cwds_distinct(sgroups_view(r@)),
{
    let mut groups: Vec<SessionGroup> = Vec::new();
    let mut i: usize = 0;
    assert(files@.take(0) =~= Seq::<RolloutFile>::empty());
    assert(sgroups_view(groups@) =~= Seq::<(Seq<char>, Seq<SessionView>)>::empty());
    while i < files.len()
        invariant
            i <= files.len(),
            sgroups_view(groups@) == spec_index_files(files@.take(i as int), titles@),
            cwds_distinct(sgroups_view(groups@)),
        decreases files.len() - i,
    {
        assert(files@.take(i + 1).drop_last() =~= files@.take(i as int));
        assert(files@.take(i + 1).last() == files@[i as int]);
        let f = &files[i];
        if is_rollout_jsonl(f.path.as_str()) {
            match &f.lines {
                Some(lines) => {
                    let info = extract_session_info(lines, f.path.as_str(), f.modified.as_str());
                    let ghost iv = info@;
                    let cwd: String = match &info.cwd {
                        Some(c) => c.clone(),
                        None => "unknown".to_owned(),
                    };
                    assert(cwd@ == cwd_of(iv));
                    let session = session_info_to_claude_session(info, cwd.as_str(), titles);
                    add_to_group(&mut groups, cwd, session);
                },
                None => {},
            }
        }
        i = i + 1;
    }
    assert(files@.take(files.len() as int) =~= files@);
    groups
}

fn sort_groups(groups: Vec<SessionGroup>) -> (r: Vec<SessionGroup>)
    requires
        cwds_distinct(sgroups_view(groups@)),
    ensures
        sgroups_view(r@) == spec_sort_groups(sgroups_view(groups@)),
        cwds_distinct(sgroups_view(r@)),
        forall|g: int| 0 <= g < r.len() ==> sessions_sorted(#[trigger] sgroups_view(r@)[g].1),
{
    let ghost gv = sgroups_view(groups@);
    let n = groups.len();
    let mut rest = groups;
    let mut rev: Vec<SessionGroup> = Vec::new();
    while rest.len() > 0
        invariant
            rest.len() + rev.len() == n,
            gv.len() == n,
            forall|j: int| 0 <= j < rest.len() ==> #[trigger] sgroup_view(rest@[j]) == gv[j],
            forall|j: int|
                0 <= j < rev.len() ==> #[trigger] sgroup_view(rev@[j]) == (
                    gv[n - 1 - j].0,
                    sessions_newest_first(gv[n - 1 - j].1),
                ),
            forall|j: int| 0 <= j < rev.len() ==> sessions_sorted(#[trigger] sgroup_view(rev@[j]).1),
        decreases rest.len(),
    {
        assert(sgroup_view(rest@[rest.len() - 1]) == gv[rest.len() - 1]);
        let ghost old_rev = rev@;
        let g = rest.pop().unwrap();
        let sorted = sort_sessions(g.sessions);
        rev.push(SessionGroup { cwd: g.cwd, sessions: sorted });
        assert(forall|j: int| 0 <= j < old_rev.len() ==> rev@[j] == old_rev[j]);
    }
    let mut out: Vec<SessionGroup> = Vec::new();
    while rev.len() > 0
        invariant
            out.len() + rev.len() == n,
            forall|j: int|
                0 <= j < rev.len() ==> #[trigger] sgroup_view(rev@[j]) == (
                    gv[n - 1 - j].0,
                    sessions_newest_first(gv[n - 1 - j].1),
                ),
            forall|j: int|
                0 <= j < out.len() ==> #[trigger] sgroup_view(out@[j]) == (
                    gv[j].0,
                    sessions_newest_first(gv[j].1),
                ),
            forall|j: int| 0 <= j < rev.len() ==> sessions_sorted(#[trigger] sgroup_view(rev@[j]).1),
            forall|j: int| 0 <= j < out.len() ==> sessions_sorted(#[trigger] sgroup_view(out@[j]).1),
        decreases rev.len(),
    {
        assert(sgroup_view(rev@[rev.len() - 1]) == (
            gv[n - 1 - (rev.len() - 1)].0,
            sessions_newest_first(gv[n - 1 - (rev.len() - 1)].1),
        ));
        let ghost old_out = out@;
        let g = rev.pop().unwrap();
        out.push(g);
        assert(forall|j: int| 0 <= j < old_out.len() ==> out@[j] == old_out[j]);
    }
    assert(sgroups_view(out@) =~= spec_sort_groups(gv));
    assert forall|g: int| 0 <= g < out.len() implies sessions_sorted(#[trigger] sgroups_view(out@)[g].1) by {
        assert(sgroups_view(out@)[g] == sgroup_view(out@[g]));
    }
    out
}

fn plain_copy(groups: &Vec<SessionGroup>) -> (r: Vec<(String, Vec<ClaudeSession>)>)
    ensures
        groups_view(r@) == sgroups_view(groups@),
{
    let ghost gv = sgroups_view(groups@);
    let mut out: Vec<(String, Vec<ClaudeSession>)> = Vec::new();
    let mut i: usize = 0;
    while i < groups.len()
        invariant
            i <= groups.len(),
            gv == sgroups_view(groups@),
            out.len() == i,
            forall|j: int| 0 <= j < i ==> #[trigger] group_view(out@[j]) == gv[j],
        decreases groups.len() - i,
    {
        let g = &groups[i];
        let mut v: Vec<ClaudeSession> = Vec::new();
        let mut k: usize = 0;
        while k < g.sessions.len()
            invariant
                k <= g.sessions.len(),
                v.len() == k,
                forall|j: int| 0 <= j < k ==> #[trigger] v@[j]@ == g.sessions@[j]@,
            decreases g.sessions.len() - k,
        {
            v.push(g.sessions[k].duplicate());
            k = k + 1;
        }
        assert(session_views(v@) =~= gv[i as int].1);
        out.push((g.cwd.clone(), v));
        i = i + 1;
    }
    assert(groups_view(out@) =~= gv);
    out
}

/// Builds the index of a Codex home from what was read of it.
pub fn build_session_index(disk: &CodexDisk) -> (r: Result<CodexSessionIndex, String>)
    ensures
        match spec_build_index(*disk) {
            Ok(ix) => r matches Ok(x) && x@ == ix && x.well_formed(),
            Err(m) => r matches Err(e) && e@ == m,
        },
{
    match require_absolute_path(disk.base_path.as_str(), "Codex base path") {
        Ok(()) => {},
        Err(e) => {
            return Err(e);
        },
    }
    if !disk.has_session_dirs {
        let ix = CodexSessionIndex {
            base_path: disk.base_path.clone(),
            thread_index_modified: disk.thread_index_modified,
            projects: Vec::new(),
            sessions_by_cwd: Vec::new(),
        };
        assert(ix@.projects =~= Seq::<ProjectView>::empty());
        assert(ix@.groups =~= Seq::<(Seq<char>, Seq<SessionView>)>::empty());
        return Ok(ix);
    }
    let titles = index_titles(&disk.titles_content);
    let grouped = group_files(&disk.files, &titles);
    let sorted = sort_groups(grouped);
    let plain = plain_copy(&sorted);
    let projects = projects_from_sessions_by_cwd(&plain);
    Ok(
        CodexSessionIndex {
            base_path: disk.base_path.clone(),
            thread_index_modified: disk.thread_index_modified,
            projects,
            sessions_by_cwd: sorted,
        },
    )
}

// ---------------------------------------------------------------------------
// The index cache
// ---------------------------------------------------------------------------

/// The last index built, kept so that loading a project's sessions does not
/// read every file again.
pub struct SessionIndexCache {
    pub slot: Option<CodexSessionIndex>,
}

pub open spec fn cached_view(c: SessionIndexCache) -> Option<IndexView> {
    match c.slot {
        Some(ix) => Some(ix@),
        None => None,
    }
}

/// The index kept for `base_path`, where it was built while the thread title
/// index had the modification time it has now.
pub open spec fn spec_cache_hit(
    c: Option<IndexView>,
    base_path: Seq<char>,
    thread_index_modified: Option<u128>,
) -> Option<IndexView> {
    match c {
        Some(ix) => if ix.base_path == base_path && ix.thread_index_modified
            == thread_index_modified {
            Some(ix)
        } else {
            None
        },
        None => None,
    }
}

impl SessionIndexCache {
    /// Every kept index has one group per working directory.
    pub open spec fn well_formed(&self) -> bool {
        self.slot matches Some(ix) ==> ix.well_formed()
    }

    /// An empty cache.
    pub fn new() -> (r: SessionIndexCache)
        ensures
            cached_view(r) is None,
            r.well_formed(),
    {
        SessionIndexCache { slot: None }
    }
}

/// Forgets the kept index.
pub fn invalidate_session_index_cache(cache: &mut SessionIndexCache)
    ensures
        cached_view(*final(cache)) is None,
        final(cache).well_formed(),
{
    cache.slot = None;
}

/// Keeps `index`, in place of any index kept before.
pub fn store_session_index(cache: &mut SessionIndexCache, index: CodexSessionIndex)
    requires
        index.well_formed(),
    ensures
        cached_view(*final(cache)) == Some(index@),
        final(cache).well_formed(),
{
    cache.slot = Some(index);
}

/// The kept index, where it is for `base_path` and the thread title index
/// has not changed since.
pub fn get_cached_session_index<'a>(
    cache: &'a SessionIndexCache,
    base_path: &str,
    thread_index_modified: Option<u128>,
) -> (r: Option<&'a CodexSessionIndex>)
    ensures
        match spec_cache_hit(cached_view(*cache), base_path@, thread_index_modified) {
            Some(ix) => r matches Some(x) && x@ == ix,
            None => r is None,
        },
        cache.well_formed() ==> (r matches Some(x) ==> x.well_formed()),
{
    match &cache.slot {
        Some(ix) => {
            if crate::text::str_eq(ix.base_path.as_str(), base_path) && ix.thread_index_modified
                == thread_index_modified {
                Some(ix)
            } else {
                None
            }
        },
        None => None,
    }
}

/// A read of the cache gives back the index last stored, while the base path
/// and the thread title index's time are those it was built with.
pub proof fn law_cache_returns_stored(
    c: Option<IndexView>,
    ix: IndexView,
    base_path: Seq<char>,
    thread_index_modified: Option<u128>,
)
    requires
        c == Some(ix),
        ix.base_path == base_path,
        ix.thread_index_modified == thread_index_modified,
    ensures
        spec_cache_hit(c, base_path, thread_index_modified) == Some(ix),
{
}

/// After the cache is invalidated, no read hits it; a read for another base
/// path, or after the thread title index changed, misses too.
pub proof fn law_cache_misses(
    c: Option<IndexView>,
    base_path: Seq<char>,
    thread_index_modified: Option<u128>,
)
    requires
        c matches Some(ix) ==> ix.base_path != base_path || ix.thread_index_modified
            != thread_index_modified,
    ensures
        spec_cache_hit(c, base_path, thread_index_modified) is None,
{
}

// ---------------------------------------------------------------------------
// Scanning projects and loading sessions
// ---------------------------------------------------------------------------

pub open spec fn projects_result(r: Result<Vec<ClaudeProject>, String>) -> Result<
    Seq<ProjectView>,
    Seq<char>,
> {
    match r {
        Ok(v) => Ok(project_views(v@)),
        Err(e) => Err(e@),
    }
}

pub open spec fn sessions_result(r: Result<Vec<ClaudeSession>, String>) -> Result<
    Seq<SessionView>,
    Seq<char>,
> {
    match r {
        Ok(v) => Ok(session_views(v@)),
        Err(e) => Err(e@),
    }
}

/// What a scan of `disk` answers and keeps: the projects the filters leave
/// (`hss` holding the leading lines of the sessions' files as read then),
/// with the new index kept; or the build's error, with the cache untouched.
pub open spec fn spec_scan(
    old_cache: Option<IndexView>,
    disk: CodexDisk,
    hss: Seq<Seq<Seq<String>>>,
    f: Option<CodexSessionFilters>,
) -> (Result<Seq<ProjectView>, Seq<char>>, Option<IndexView>) {
    match spec_build_index(disk) {
        Ok(ix) => (Ok(spec_filter_projects(ix, hss, f)), Some(ix)),
        Err(m) => (Err(m), old_cache),
    }
}

/// `hss` holds what `read_head` gave for the files of the index built from
/// `disk`, where the build succeeds.
pub open spec fn scan_heads_fit<G: Fn(&String) -> Vec<String>>(
    read_head: G,
    disk: CodexDisk,
    hss: Seq<Seq<Seq<String>>>,
    f: Option<CodexSessionFilters>,
) -> bool {
    match spec_build_index(disk) {
        Ok(ix) => groups_fit(read_head, ix.groups, hss, f),
        Err(_) => true,
    }
}

/// Scans the projects of a Codex home, as the filters leave them, and keeps
/// the index for later session loads. Where the filters hide a kind of
/// session, the leading lines of each session's file are read with
/// `read_head` while filtering.
pub fn scan_projects_from_path_with_filters<G: Fn(&String) -> Vec<String>>(
    cache: &mut SessionIndexCache,
    disk: &CodexDisk,
    filters: Option<&CodexSessionFilters>,
    read_head: &G,
) -> (r: Result<Vec<ClaudeProject>, String>)
    requires
        old(cache).well_formed(),
        reads_any_path(*read_head),
    ensures
        exists|hss: Seq<Seq<Seq<String>>>|
            scan_heads_fit(*read_head, *disk, hss, opt_filters(filters)) && (
            projects_result(r),
            cached_view(*final(cache)),
        ) == spec_scan(cached_view(*old(cache)), *disk, hss, opt_filters(filters)),
        final(cache).well_formed(),
{
    let ghost old_c = cached_view(*cache);
    let index = match build_session_index(disk) {
        Ok(ix) => ix,
        Err(e) => {
            let r = Err(e);
            assert(scan_heads_fit(*read_head, *disk, Seq::empty(), opt_filters(filters)));
            assert((projects_result(r), cached_view(*cache)) == spec_scan(
                old_c,
                *disk,
                Seq::empty(),
                opt_filters(filters),
            ));
            return r;
        },
    };
    let projects = filter_codex_projects(&index, filters, read_head);
    let ghost hss = choose|hss: Seq<Seq<Seq<String>>>|
        groups_fit(*read_head, index@.groups, hss, opt_filters(filters)) && project_views(
            projects@,
        ) == spec_filter_projects(index@, hss, opt_filters(filters));
    store_session_index(cache, index);
    let r = Ok(projects);
    assert(scan_heads_fit(*read_head, *disk, hss, opt_filters(filters)));
    assert((projects_result(r), cached_view(*cache)) == spec_scan(
        old_c,
        *disk,
        hss,
        opt_filters(filters),
    ));
    r
}

/// Scans the projects of a Codex home with the default filters.
pub fn scan_projects_from_path<G: Fn(&String) -> Vec<String>>(
    cache: &mut SessionIndexCache,
    disk: &CodexDisk,
    read_head: &G,
) -> (r: Result<Vec<ClaudeProject>, String>)
    requires
        old(cache).well_formed(),
        reads_any_path(*read_head),
    ensures
        exists|hss: Seq<Seq<Seq<String>>>|
            scan_heads_fit(*read_head, *disk, hss, None) && (
            projects_result(r),
            cached_view(*final(cache)),
        ) == spec_scan(cached_view(*old(cache)), *disk, hss, None),
        final(cache).well_formed(),
{
    scan_projects_from_path_with_filters(cache, disk, None, read_head)
}

/// Scans the projects of the Codex home found on this machine (`None` where
/// there is none).
pub fn scan_projects_with_filters<G: Fn(&String) -> Vec<String>>(
    cache: &mut SessionIndexCache,
    disk: Option<&CodexDisk>,
    filters: Option<&CodexSessionFilters>,
    read_head: &G,
) -> (r: Result<Vec<ClaudeProject>, String>)
    requires
        old(cache).well_formed(),
        reads_any_path(*read_head),
    ensures
        match disk {
            None => projects_result(r) == Err::<Seq<ProjectView>, Seq<char>>(
                "Codex base path not found"@,
            ) && cached_view(*final(cache)) == cached_view(*old(cache)),
            Some(d) => exists|hss: Seq<Seq<Seq<String>>>|
                scan_heads_fit(*read_head, *d, hss, opt_filters(filters)) && (
                projects_result(r),
                cached_view(*final(cache)),
            ) == spec_scan(cached_view(*old(cache)), *d, hss, opt_filters(filters)),
        },
        final(cache).well_formed(),
{
    match disk {
        Some(d) => scan_projects_from_path_with_filters(cache, d, filters, read_head),
        None => Err("Codex base path not found".to_owned()),
    }
}

/// Scans the projects of the Codex home found on this machine with the
/// default filters.
pub fn scan_projects<G: Fn(&String) -> Vec<String>>(
    cache: &mut SessionIndexCache,
    disk: Option<&CodexDisk>,
    read_head: &G,
) -> (r: Result<Vec<ClaudeProject>, String>)
    requires
        old(cache).well_formed(),
        reads_any_path(*read_head),
    ensures
        match disk {
            None => projects_result(r) == Err::<Seq<ProjectView>, Seq<char>>(
                "Codex base path not found"@,
            ) && cached_view(*final(cache)) == cached_view(*old(cache)),
            Some(d) => exists|hss: Seq<Seq<Seq<String>>>|
                scan_heads_fit(*read_head, *d, hss, None) && (
                projects_result(r),
                cached_view(*final(cache)),
            ) == spec_scan(cached_view(*old(cache)), *d, hss, None),
        },
        final(cache).well_formed(),
{
    scan_projects_with_filters(cache, disk, None, read_head)
}

/// The working directory of a project path: "codex://" is dropped.
pub open spec fn spec_target_cwd(project_path: Seq<char>) -> Seq<char> {
    if crate::text::starts_with(project_path, "codex://"@) {
        project_path.skip(8)
    } else {
        project_path
    }
}

pub fn target_cwd(project_path: &str) -> (r: String)
    ensures
        r@ == spec_target_cwd(project_path@),
{
    let v = chars_of(project_path);
    let prefix = chars_of("codex://");
    proof {
        reveal_strlit("codex://");
    }
    if crate::text::chars_starts_with(&v, &prefix) {
        let rest = crate::text::sub_chars(&v, 8, v.len());
        assert(rest@ =~= project_path@.skip(8));
        string_from_chars(&rest)
    } else {
        project_path.to_owned()
    }
}

/// What loading a project's sessions answers and keeps, where the index is
/// built from `disk`: the sessions of the project as the filters leave them
/// (`hs` holding the leading lines of their files as read then), with the
/// new index kept; or the build's error, with the cache untouched.
pub open spec fn spec_load_built(
    old_cache: Option<IndexView>,
    disk: CodexDisk,
    cwd: Seq<char>,
    hs: Seq<Seq<String>>,
    f: Option<CodexSessionFilters>,
) -> (Result<Seq<SessionView>, Seq<char>>, Option<IndexView>) {
    match spec_build_index(disk) {
        Ok(ix) => (Ok(spec_filter_sessions(sessions_of_cwd(ix, cwd), hs, f)), Some(ix)),
        Err(m) => (Err(m), old_cache),
    }
}

/// `hs` holds what `read_head` gave for the files of `cwd` in the index
/// built from `disk`, where the build succeeds.
pub open spec fn load_heads_fit<G: Fn(&String) -> Vec<String>>(
    read_head: G,
    disk: CodexDisk,
    cwd: Seq<char>,
    hs: Seq<Seq<String>>,
    f: Option<CodexSessionFilters>,
) -> bool {
    match spec_build_index(disk) {
        Ok(ix) => heads_fit(read_head, sessions_of_cwd(ix, cwd), hs, f),
        Err(_) => true,
    }
}

/// What loading the sessions of `project_path` answers and keeps, given the
/// cache before, the Codex home (`None` where there is none) and the
/// thread title index's time, `disk` as `read_disk` read it where the cache
/// missed, and `hs` as the leading lines of the sessions' files read while
/// filtering.
pub open spec fn spec_load(
    old_cache: Option<IndexView>,
    base_path: Option<Seq<char>>,
    thread_index_modified: Option<u128>,
    project_path: Seq<char>,
    disk: CodexDisk,
    hs: Seq<Seq<String>>,
    f: Option<CodexSessionFilters>,
) -> (Result<Seq<SessionView>, Seq<char>>, Option<IndexView>) {
    match base_path {
        None => (Err("Codex base path not found"@), old_cache),
        Some(b) => match spec_cache_hit(old_cache, b, thread_index_modified) {
            Some(ix) => (
                Ok(spec_filter_sessions(sessions_of_cwd(ix, spec_target_cwd(project_path)), hs, f)),
                old_cache,
            ),
            None => spec_load_built(old_cache, disk, spec_target_cwd(project_path), hs, f),
        },
    }
}

/// `disk` and `hs` are what the load read: `disk` from `read_disk` where the
/// cache missed, `hs` from `read_head` for the project's files.
pub open spec fn load_reads_fit<F: FnOnce() -> CodexDisk, G: Fn(&String) -> Vec<String>>(
    read_disk: F,
    read_head: G,
    old_cache: Option<IndexView>,
    base_path: Option<Seq<char>>,
    thread_index_modified: Option<u128>,
    project_path: Seq<char>,
    disk: CodexDisk,
    hs: Seq<Seq<String>>,
    f: Option<CodexSessionFilters>,
) -> bool {
    match base_path {
        None => true,
        Some(b) => match spec_cache_hit(old_cache, b, thread_index_modified) {
            Some(ix) => heads_fit(read_head, sessions_of_cwd(ix, spec_target_cwd(project_path)), hs, f),
            None => call_ensures(read_disk, (), disk) && load_heads_fit(
                read_head,
                disk,
                spec_target_cwd(project_path),
                hs,
                f,
            ),
        },
    }
}

pub open spec fn opt_str_view(o: Option<&str>) -> Option<Seq<char>> {
    match o {
        Some(s) => Some(s@),
        None => None,
    }
}

/// Loads the sessions of a project (`codex://` and its working directory)
/// as the filters leave them: from the kept index where it is current, else
/// from an index built from what `read_disk` reads, which is then kept.
/// Without a Codex home (`base_path` is `None`) it is an error. Where the
/// filters hide a kind of session, the leading lines of each of the
/// project's files are read with `read_head` while filtering.
pub fn load_sessions_with_filters<F: FnOnce() -> CodexDisk, G: Fn(&String) -> Vec<String>>(
    cache: &mut SessionIndexCache,
    base_path: Option<&str>,
    thread_index_modified: Option<u128>,
    project_path: &str,
    exclude_sidechain: bool,
    filters: Option<&CodexSessionFilters>,
    read_disk: F,
    read_head: &G,
) -> (r: Result<Vec<ClaudeSession>, String>)
    requires
        old(cache).well_formed(),
        call_requires(read_disk, ()),
        reads_any_path(*read_head),
    ensures
        final(cache).well_formed(),
        exists|d: CodexDisk, hs: Seq<Seq<String>>|
            load_reads_fit(
                read_disk,
                *read_head,
                cached_view(*old(cache)),
                opt_str_view(base_path),
                thread_index_modified,
                project_path@,
                d,
                hs,
                opt_filters(filters),
            ) && (sessions_result(r), cached_view(*final(cache))) == spec_load(
                cached_view(*old(cache)),
                opt_str_view(base_path),
                thread_index_modified,
                project_path@,
                d,
                hs,
                opt_filters(filters),
            ),
{
    let ghost old_c = cached_view(*cache);
    let ghost f = opt_filters(filters);
    let ghost any_disk: CodexDisk = arbitrary();
    let base = match base_path {
        Some(b) => b,
        None => {
            let r = Err("Codex base path not found".to_owned());
            assert(load_reads_fit(read_disk, *read_head, old_c, None, thread_index_modified, project_path@, any_disk, Seq::empty(), f));
            assert((sessions_result(r), cached_view(*cache)) == spec_load(old_c, None, thread_index_modified, project_path@, any_disk, Seq::empty(), f));
            return r;
        },
    };
    let cwd = target_cwd(project_path);
    match get_cached_session_index(cache, base, thread_index_modified) {
        Some(index) => {
            let sessions = index.sessions_for(cwd.as_str(), filters, read_head);
            let ghost hs = choose|hs: Seq<Seq<String>>|
                heads_fit(*read_head, sessions_of_cwd(index@, cwd@), hs, f) && session_views(
                    sessions@,
                ) == spec_filter_sessions(sessions_of_cwd(index@, cwd@), hs, f);
            let r = Ok(sessions);
            assert(load_reads_fit(read_disk, *read_head, old_c, opt_str_view(base_path), thread_index_modified, project_path@, any_disk, hs, f));
            assert((sessions_result(r), cached_view(*cache)) == spec_load(old_c, opt_str_view(base_path), thread_index_modified, project_path@, any_disk, hs, f));
            return r;
        },
        None => {},
    }
    let disk = read_disk();
    match build_session_index(&disk) {
        Ok(index) => {
            let sessions = index.sessions_for(cwd.as_str(), filters, read_head);
            let ghost hs = choose|hs: Seq<Seq<String>>|
                heads_fit(*read_head, sessions_of_cwd(index@, cwd@), hs, f) && session_views(
                    sessions@,
                ) == spec_filter_sessions(sessions_of_cwd(index@, cwd@), hs, f);
            store_session_index(cache, index);
            let r = Ok(sessions);
            assert(load_reads_fit(read_disk, *read_head, old_c, opt_str_view(base_path), thread_index_modified, project_path@, disk, hs, f));
            assert((sessions_result(r), cached_view(*cache)) == spec_load(old_c, opt_str_view(base_path), thread_index_modified, project_path@, disk, hs, f));
            r
        },
        Err(e) => {
            let r = Err(e);
            assert(load_reads_fit(read_disk, *read_head, old_c, opt_str_view(base_path), thread_index_modified, project_path@, disk, Seq::empty(), f));
            assert((sessions_result(r), cached_view(*cache)) == spec_load(old_c, opt_str_view(base_path), thread_index_modified, project_path@, disk, Seq::empty(), f));
            r
        },
    }
}

/// Loads the sessions of a project with the default filters.
pub fn load_sessions<F: FnOnce() -> CodexDisk, G: Fn(&String) -> Vec<String>>(
    cache: &mut SessionIndexCache,
    base_path: Option<&str>,
    thread_index_modified: Option<u128>,
    project_path: &str,
    exclude_sidechain: bool,
    read_disk: F,
    read_head: &G,
) -> (r: Result<Vec<ClaudeSession>, String>)
    requires
        old(cache).well_formed(),
        call_requires(read_disk, ()),
        reads_any_path(*read_head),
    ensures
        final(cache).well_formed(),
        exists|d: CodexDisk, hs: Seq<Seq<String>>|
            load_reads_fit(
                read_disk,
                *read_head,
                cached_view(*old(cache)),
                opt_str_view(base_path),
                thread_index_modified,
                project_path@,
                d,
                hs,
                None,
            ) && (sessions_result(r), cached_view(*final(cache))) == spec_load(
                cached_view(*old(cache)),
                opt_str_view(base_path),
                thread_index_modified,
                project_path@,
                d,
                hs,
                None,
            ),
{
    load_sessions_with_filters(
        cache,
        base_path,
        thread_index_modified,
        project_path,
        exclude_sidechain,
        None,
        read_disk,
        read_head,
    )
}

// ---------------------------------------------------------------------------
// Finding the Codex home
// ---------------------------------------------------------------------------

/// The Codex provider of a base path: available where a session directory
/// exists there.
pub fn detect(base_path: Option<&str>, sessions_is_dir: bool, archived_sessions_is_dir: bool) -> (r:
    Option<ProviderInfo>)
    ensures
        base_path is None ==> r is None,
        base_path matches Some(b) ==> (r matches Some(p) && p.id@ == "codex"@ && p.display_name@
            == "Codex CLI"@ && p.base_path@ == b@ && p.is_available == (sessions_is_dir
            || archived_sessions_is_dir)),
{
    match base_path {
        Some(b) => Some(
            ProviderInfo {
                id: "codex".to_owned(),
                display_name: "Codex CLI".to_owned(),
                base_path: b.to_owned(),
                is_available: sessions_is_dir || archived_sessions_is_dir,
            },
        ),
        None => None,
    }
}

/// The Codex home: `$CODEX_HOME` where it is set and exists, else the
/// default (`~/.codex`) where it exists.
pub fn get_base_path(
    codex_home: Option<&str>,
    codex_home_exists: bool,
    default_home: Option<&str>,
    default_home_exists: bool,
) -> (r: Option<String>)
    ensures
        codex_home_exists ==> (codex_home matches Some(h) ==> (r matches Some(p) && p@ == h@)),
        !(codex_home is Some && codex_home_exists) ==> (match default_home {
            Some(d) => if default_home_exists {
                r matches Some(p) && p@ == d@
            } else {
                r is None
            },
            None => r is None,
        }),
{
    match codex_home {
        Some(h) => {
            if codex_home_exists {
                return Some(h.to_owned());
            }
        },
        None => {},
    }
    match default_home {
        Some(d) => {
            if default_home_exists {
                Some(d.to_owned())
            } else {
                None
            }
        },
        None => None,
    }
}

/// `Path::new(base).join(name)` for a relative `name`: the name after a
/// separator (none is added where `base` ends with one or is empty).
pub open spec fn spec_join_path(base: Seq<char>, name: Seq<char>) -> Seq<char> {
    if base.len() == 0 {
        name
    } else if base.last() == '/' {
        base + name
    } else {
        base + seq!['/'] + name
    }
}

pub fn join_path(base: &str, name: &str) -> (r: String)
    ensures
        r@ == spec_join_path(base@, name@),
{
    let mut v = chars_of(base);
    if v.len() == 0 {
        return name.to_owned();
    }
    if v[v.len() - 1] != '/' {
        v.push('/');
    }
    crate::text::push_str(&mut v, name);
    string_from_chars(&v)
}

/// `Path::starts_with` for Unix paths: both rooted or both relative, and the
/// components of `base` lead those of `p`.
pub open spec fn spec_path_starts_with(p: Seq<char>, base: Seq<char>) -> bool {
    let pc = crate::codex::paths::path_components(p);
    let bc = crate::codex::paths::path_components(base);
    is_absolute_path(p) == is_absolute_path(base) && bc.len() <= pc.len() && pc.take(
        bc.len() as int,
    ) == bc
}

pub fn path_starts_with(p: &str, base: &str) -> (r: bool)
    ensures
        r == spec_path_starts_with(p@, base@),
{
    let pc = crate::codex::paths::components(p);
    let bc = crate::codex::paths::components(base);
    let pv = chars_of(p);
    let bv = chars_of(base);
    let p_abs = pv.len() > 0 && pv[0] == '/';
    let b_abs = bv.len() > 0 && bv[0] == '/';
    assert(p_abs == is_absolute_path(p@));
    assert(b_abs == is_absolute_path(base@));
    assert(pc.len() == crate::codex::paths::path_components(p@).len());
    assert(bc.len() == crate::codex::paths::path_components(base@).len());
    if p_abs != b_abs || bc.len() > pc.len() {
        return false;
    }
    let ghost pcv = crate::codex::paths::pieces_view(pc@);
    let ghost bcv = crate::codex::paths::pieces_view(bc@);
    let mut i: usize = 0;
    while i < bc.len()
        invariant
            i <= bc.len(),
            bc.len() <= pc.len(),
            pcv == crate::codex::paths::pieces_view(pc@),
            bcv == crate::codex::paths::pieces_view(bc@),
            pcv == crate::codex::paths::path_components(p@),
            bcv == crate::codex::paths::path_components(base@),
            is_absolute_path(p@) == is_absolute_path(base@),
            forall|j: int| 0 <= j < i ==> pcv[j] == bcv[j],
        decreases bc.len() - i,
    {
        assert(pcv[i as int] == pc@[i as int]@);
        assert(bcv[i as int] == bc@[i as int]@);
        if !crate::text::chars_equal(&pc[i], &bc[i]) {
            assert(pcv.take(bcv.len() as int)[i as int] == pcv[i as int]);
            assert(pcv.take(bcv.len() as int)[i as int] != bcv[i as int]);
            return false;
        }
        i = i + 1;
    }
    assert(pcv.take(bcv.len() as int) =~= bcv);
    true
}

/// Whether a resolved session file lies in one of the resolved session
/// directories: none existing is an error, and so is a path outside them.
pub open spec fn spec_validate_session_path(
    canonical_session: Seq<char>,
    canonical_dirs: Seq<String>,
    raw_session_path: Seq<char>,
) -> Result<Seq<char>, Seq<char>> {
    if canonical_dirs.len() == 0 {
        Err("No Codex session directories found"@)
    } else if exists|i: int|
        0 <= i < canonical_dirs.len() && spec_path_starts_with(
            canonical_session,
            #[trigger] canonical_dirs[i]@,
        ) {
        Ok(canonical_session)
    } else {
        Err("Session path is outside Codex session directories: "@ + raw_session_path)
    }
}

pub fn validate_session_path(
    canonical_session: &str,
    canonical_dirs: &Vec<String>,
    raw_session_path: &str,
) -> (r: Result<String, String>)
    ensures
        match spec_validate_session_path(canonical_session@, canonical_dirs@, raw_session_path@) {
            Ok(p) => r matches Ok(x) && x@ == p,
            Err(m) => r matches Err(e) && e@ == m,
        },
{
    if canonical_dirs.len() == 0 {
        return Err("No Codex session directories found".to_owned());
    }
    let mut i: usize = 0;
    while i < canonical_dirs.len()
        invariant
            i <= canonical_dirs.len(),
            forall|j: int|
                0 <= j < i ==> !spec_path_starts_with(canonical_session@, #[trigger] canonical_dirs@[j]@),
        decreases canonical_dirs.len() - i,
    {
        if path_starts_with(canonical_session, canonical_dirs[i].as_str()) {
            return Ok(canonical_session.to_owned());
        }
        i = i + 1;
    }
    let mut msg: Vec<char> = Vec::new();
    crate::text::push_str(&mut msg, "Session path is outside Codex session directories: ");
    crate::text::push_str(&mut msg, raw_session_path);
    Err(string_from_chars(&msg))
}

} // verus!
