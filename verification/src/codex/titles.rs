use vstd::prelude::*;

use crate::codex::paths::split_on;
use crate::text::{
    ascii_lower, ascii_lower_seq, chars_of, chars_starts_with, is_whitespace, is_ws, join, lead_ws,
    ltrim, push_chars, starts_with, string_from_chars, sub_chars, to_ascii_lower, trim,
    trim_bounds, trim_chars,
};

verus! {

// ---------------------------------------------------------------------------
// Line handling
// ---------------------------------------------------------------------------

/// `s.replace("\r\n", "\n")`
pub open spec fn replace_crlf(s: Seq<char>) -> Seq<char>
    decreases s.len(),
{
    if s.len() >= 2 && s[0] == '\r' && s[1] == '\n' {
        seq!['\n'] + replace_crlf(s.skip(2))
    } else if s.len() > 0 {
        seq![s[0]] + replace_crlf(s.skip(1))
    } else {
        Seq::empty()
    }
}

/// A line ended by "\n" loses a "\r" before it.
pub open spec fn strip_cr(x: Seq<char>) -> Seq<char> {
    if x.len() > 0 && x.last() == '\r' {
        x.drop_last()
    } else {
        x
    }
}

/// `str::lines`: the pieces between newlines, each without a "\r" before its
/// newline; a final empty piece (after a last newline) is no line.
pub open spec fn spec_lines(s: Seq<char>) -> Seq<Seq<char>> {
    let p = split_on(s, '\n');
    let body = p.drop_last().map_values(|x: Seq<char>| strip_cr(x));
    if p.last().len() > 0 {
        body.push(p.last())
    } else {
        body
    }
}

pub fn replace_crlf_chars(s: &Vec<char>) -> (r: Vec<char>)
    ensures
        r@ == replace_crlf(s@),
{
    let mut out: Vec<char> = Vec::new();
    let mut i: usize = 0;
    assert(s@.skip(0) =~= s@);
    while i < s.len()
        invariant
            i <= s.len(),
            out@ + replace_crlf(s@.skip(i as int)) == replace_crlf(s@),
        decreases s.len() - i,
    {
        let ghost t = s@.skip(i as int);
        if s[i] == '\r' && i + 1 < s.len() && s[i + 1] == '\n' {
            assert(t[0] == '\r' && t[1] == '\n');
            assert(t.skip(2) =~= s@.skip(i + 2));
            out.push('\n');
            assert(out@ + replace_crlf(s@.skip(i + 2)) =~= replace_crlf(s@));
            i = i + 2;
        } else {
            assert(t[0] == s@[i as int]);
            assert(t.skip(1) =~= s@.skip(i + 1));
            assert(!(t.len() >= 2 && t[0] == '\r' && t[1] == '\n'));
            out.push(s[i]);
            assert(out@ + replace_crlf(s@.skip(i + 1)) =~= replace_crlf(s@));
            i = i + 1;
        }
    }
    assert(s@.skip(i as int) =~= Seq::<char>::empty());
    assert(out@ + Seq::<char>::empty() =~= out@);
    out
}

pub open spec fn lines_view(v: Seq<Vec<char>>) -> Seq<Seq<char>> {
    v.map_values(|x: Vec<char>| x@)
}

fn strip_cr_exec(x: Vec<char>) -> (r: Vec<char>)
    ensures
        r@ == strip_cr(x@),
{
    let mut x = x;
    if x.len() > 0 && x[x.len() - 1] == '\r' {
        x.pop();
    }
    x
}

/// `s.lines()`, as characters.
pub fn lines_of(s: &Vec<char>) -> (r: Vec<Vec<char>>)
    ensures
        lines_view(r@) == spec_lines(s@),
{
    let mut out: Vec<Vec<char>> = Vec::new();
    let mut cur: Vec<char> = Vec::new();
    let mut i: usize = 0;
    assert(s@.take(0) =~= Seq::<char>::empty());
    assert(lines_view(out@) =~= Seq::<Seq<char>>::empty());
    while i < s.len()
        invariant
            i <= s.len(),
            split_on(s@.take(i as int), '\n').len() >= 1,
            cur@ == split_on(s@.take(i as int), '\n').last(),
            lines_view(out@) == split_on(s@.take(i as int), '\n').drop_last().map_values(
                |x: Seq<char>| strip_cr(x),
            ),
        decreases s.len() - i,
    {
        let ghost t = s@.take(i + 1);
        let ghost r = split_on(s@.take(i as int), '\n');
        assert(t.drop_last() =~= s@.take(i as int));
        assert(t.last() == s@[i as int]);
        let c = s[i];
        if c == '\n' {
            assert(split_on(t, '\n') == r.push(Seq::empty()));
            assert(r.push(Seq::empty()).drop_last() =~= r);
            let ghost before = out@;
            let line = strip_cr_exec(cur);
            let ghost lw = line@;
            out.push(line);
            assert(lines_view(out@) =~= lines_view(before).push(lw));
            assert(r =~= r.drop_last().push(r.last()));
            assert(r.map_values(|x: Seq<char>| strip_cr(x)) =~= r.drop_last().map_values(
                |x: Seq<char>| strip_cr(x),
            ).push(strip_cr(r.last())));
            cur = Vec::new();
            assert(cur@ =~= Seq::<char>::empty());
        } else {
            cur.push(c);
            assert(split_on(t, '\n') == r.update(r.len() - 1, r.last().push(c)));
            assert(r.update(r.len() - 1, r.last().push(c)).drop_last() =~= r.drop_last());
        }
        i = i + 1;
        proof {
            crate::codex::paths::lemma_split_on_len(s@.take(i as int), '\n');
        }
    }
    assert(s@.take(i as int) =~= s@);
    if cur.len() > 0 {
        let ghost before = out@;
        out.push(cur);
        assert(lines_view(out@) =~= lines_view(before).push(split_on(s@, '\n').last()));
    }
    out
}

/// `lines[from..].join(sep)`, as characters.
pub fn join_lines_from(lines: &Vec<Vec<char>>, from: usize, sep: char) -> (r: Vec<char>)
    requires
        from <= lines.len(),
    ensures
        r@ == join(lines_view(lines@).skip(from as int), seq![sep]),
{
    let ghost lv = lines_view(lines@);
    let mut acc: Vec<char> = Vec::new();
    let mut i: usize = from;
    assert(lv.skip(from as int).take(0) =~= Seq::<Seq<char>>::empty());
    while i < lines.len()
        invariant
            from <= i <= lines.len(),
            lv == lines_view(lines@),
            acc@ == join(lv.skip(from as int).take(i - from), seq![sep]),
        decreases lines.len() - i,
    {
        let ghost parts = lv.skip(from as int).take(i - from);
        let ghost next = lv.skip(from as int).take(i + 1 - from);
        assert(next =~= parts.push(lines@[i as int]@));
        proof {
            crate::codex::convert::lemma_join_push(parts, lines@[i as int]@, seq![sep]);
        }
        if i > from {
            acc.push(sep);
        }
        push_chars(&mut acc, &lines[i]);
        assert(i > from ==> acc@ =~= join(parts, seq![sep]) + seq![sep] + lines@[i as int]@);
        assert(i == from ==> acc@ =~= lines@[i as int]@);
        i = i + 1;
    }
    assert(lv.skip(from as int).take(lines.len() - from) =~= lv.skip(from as int));
    acc
}

// ---------------------------------------------------------------------------
// The Codex request heading of VS Code's IDE context
// ---------------------------------------------------------------------------

/// The number of leading characters of `s` that are `#`.
pub open spec fn lead_hash(s: Seq<char>) -> nat
    decreases s.len(),
{
    if s.len() > 0 && s[0] == '#' {
        1 + lead_hash(s.drop_first())
    } else {
        0
    }
}

/// The separators that may follow the request marker.
pub open spec fn is_heading_sep(c: char) -> bool {
    c == ':' || c == '\u{ff1a}' || c == '-' || c == '\u{2014}'
}

/// The number of leading characters of `s` that are whitespace or separators.
pub open spec fn lead_ws_or_sep(s: Seq<char>) -> nat
    decreases s.len(),
{
    if s.len() > 0 && (is_ws(s[0]) || is_heading_sep(s[0])) {
        1 + lead_ws_or_sep(s.drop_first())
    } else {
        0
    }
}

/// "my request for codex"
pub open spec fn request_marker() -> Seq<char> {
    "my request for codex"@
}

/// The request of a "## My request for Codex" heading line: the text after
/// the marker and its separator, or an empty text where the line ends after
/// the marker; nothing for any other line.
pub open spec fn spec_request_heading_payload(line: Seq<char>) -> Option<Seq<char>> {
    let trimmed = trim(line);
    if !starts_with(trimmed, seq!['#']) {
        None
    } else {
        let heading = ltrim(trimmed.skip(lead_hash(trimmed) as int));
        if !starts_with(ascii_lower_seq(heading), request_marker()) {
            None
        } else {
            let suffix = ltrim(heading.skip(request_marker().len() as int));
            if suffix.len() == 0 {
                Some(Seq::empty())
            } else if !is_heading_sep(suffix[0]) {
                None
            } else {
                Some(trim(suffix.skip(lead_ws_or_sep(suffix) as int)))
            }
        }
    }
}

pub proof fn lemma_lead_hash(s: Seq<char>, i: int)
    requires
        0 <= i <= s.len(),
        forall|j: int| 0 <= j < i ==> #[trigger] s[j] == '#',
        i == s.len() || s[i] != '#',
    ensures
        lead_hash(s) == i,
    decreases i,
{
    if i > 0 {
        let t = s.drop_first();
        assert forall|j: int| 0 <= j < i - 1 implies #[trigger] t[j] == '#' by {
            assert(t[j] == s[j + 1]);
        }
        if i - 1 < t.len() {
            assert(t[i - 1] == s[i]);
        }
        lemma_lead_hash(t, i - 1);
    }
}

pub proof fn lemma_lead_ws_or_sep(s: Seq<char>, i: int)
    requires
        0 <= i <= s.len(),
        forall|j: int| 0 <= j < i ==> is_ws(#[trigger] s[j]) || is_heading_sep(s[j]),
        i == s.len() || !(is_ws(s[i]) || is_heading_sep(s[i])),
    ensures
        lead_ws_or_sep(s) == i,
    decreases i,
{
    if i > 0 {
        let t = s.drop_first();
        assert forall|j: int| 0 <= j < i - 1 implies is_ws(#[trigger] t[j]) || is_heading_sep(
            t[j],
        ) by {
            assert(t[j] == s[j + 1]);
        }
        if i - 1 < t.len() {
            assert(t[i - 1] == s[i]);
        }
        lemma_lead_ws_or_sep(t, i - 1);
    }
}

fn is_heading_sep_exec(c: char) -> (r: bool)
    ensures
        r == is_heading_sep(c),
{
    c == ':' || c == '\u{ff1a}' || c == '-' || c == '\u{2014}'
}

/// `s.trim_start()`, as characters.
fn ltrim_chars(v: &Vec<char>) -> (r: Vec<char>)
    ensures
        r@ == ltrim(v@),
{
    let (lo, _hi) = trim_bounds(v);
    sub_chars(v, lo, v.len())
}

fn starts_with_marker_ci(v: &Vec<char>) -> (r: bool)
    ensures
        r == starts_with(ascii_lower_seq(v@), request_marker()),
{
    let marker = chars_of("my request for codex");
    if v.len() < marker.len() {
        return false;
    }
    let mut j: usize = 0;
    while j < marker.len()
        invariant
            j <= marker.len() <= v.len(),
            marker@ == request_marker(),
            forall|k: int| 0 <= k < j ==> ascii_lower(v@[k]) == marker@[k],
        decreases marker.len() - j,
    {
        if to_ascii_lower(v[j]) != marker[j] {
            assert(ascii_lower_seq(v@).take(marker@.len() as int)[j as int] != marker@[j as int]);
            return false;
        }
        j = j + 1;
    }
    assert(ascii_lower_seq(v@).take(marker@.len() as int) =~= marker@);
    true
}

pub fn codex_request_heading_payload(line: &Vec<char>) -> (r: Option<Vec<char>>)
    ensures
        r matches Some(p) ==> spec_request_heading_payload(line@) == Some(p@),
        r is None ==> spec_request_heading_payload(line@) is None,
{
    let trimmed = trim_chars(line);
    if trimmed.len() == 0 || trimmed[0] != '#' {
        assert(!starts_with(trimmed@, seq!['#']));
        return None;
    }
    assert(trimmed@.take(1) =~= seq!['#']);
    let mut h: usize = 0;
    while h < trimmed.len() && trimmed[h] == '#'
        invariant
            h <= trimmed.len(),
            forall|j: int| 0 <= j < h ==> #[trigger] trimmed@[j] == '#',
        decreases trimmed.len() - h,
    {
        h = h + 1;
    }
    proof {
        lemma_lead_hash(trimmed@, h as int);
    }
    let after_hash = sub_chars(&trimmed, h, trimmed.len());
    assert(after_hash@ =~= trimmed@.skip(h as int));
    let heading = ltrim_chars(&after_hash);
    if !starts_with_marker_ci(&heading) {
        return None;
    }
    proof {
        reveal_strlit("my request for codex");
    }
    let after_marker = sub_chars(&heading, 20, heading.len());
    assert(after_marker@ =~= heading@.skip(request_marker().len() as int));
    let suffix = ltrim_chars(&after_marker);
    if suffix.len() == 0 {
        return Some(Vec::new());
    }
    if !is_heading_sep_exec(suffix[0]) {
        return None;
    }
    let mut k: usize = 0;
    while k < suffix.len() && (is_whitespace(suffix[k]) || is_heading_sep_exec(suffix[k]))
        invariant
            k <= suffix.len(),
            forall|j: int| 0 <= j < k ==> is_ws(#[trigger] suffix@[j]) || is_heading_sep(suffix@[j]),
        decreases suffix.len() - k,
    {
        k = k + 1;
    }
    proof {
        lemma_lead_ws_or_sep(suffix@, k as int);
    }
    let rest = sub_chars(&suffix, k, suffix.len());
    assert(rest@ =~= suffix@.skip(k as int));
    Some(trim_chars(&rest))
}

/// The prompt that VS Code's IDE context carries, after the first `n` lines:
/// the last request heading decides; an empty heading takes the rest of the
/// text after it, trimmed (nothing where that is empty).
pub open spec fn ide_prompt_after(lines: Seq<Seq<char>>, n: int) -> Option<Seq<char>>
    decreases n,
{
    if n <= 0 {
        None
    } else {
        let prev = ide_prompt_after(lines, n - 1);
        match spec_request_heading_payload(lines[n - 1]) {
            None => prev,
            Some(inline) => if inline.len() > 0 {
                Some(inline)
            } else {
                let following = trim(join(lines.skip(n), "\n"@));
                if following.len() > 0 {
                    Some(following)
                } else {
                    None
                }
            },
        }
    }
}

pub open spec fn spec_extract_codex_prompt_from_ide_context(text: Seq<char>) -> Option<Seq<char>> {
    let lines = spec_lines(replace_crlf(text));
    ide_prompt_after(lines, lines.len() as int)
}

pub fn extract_codex_prompt_from_ide_context(text: &Vec<char>) -> (r: Option<Vec<char>>)
    ensures
        r matches Some(p) ==> spec_extract_codex_prompt_from_ide_context(text@) == Some(p@),
        r is None ==> spec_extract_codex_prompt_from_ide_context(text@) is None,
{
    let normalized = replace_crlf_chars(text);
    let lines = lines_of(&normalized);
    let ghost lv = lines_view(lines@);
    let mut prompt: Option<Vec<char>> = None;
    let mut i: usize = 0;
    proof {
        reveal_strlit("\n");
    }
    while i < lines.len()
        invariant
            i <= lines.len(),
            lv == lines_view(lines@),
            lv == spec_lines(replace_crlf(text@)),
            prompt matches Some(p) ==> ide_prompt_after(lv, i as int) == Some(p@),
            prompt is None ==> ide_prompt_after(lv, i as int) is None,
        decreases lines.len() - i,
    {
        assert(lv[i as int] == lines@[i as int]@);
        match codex_request_heading_payload(&lines[i]) {
            None => {},
            Some(inline) => {
                if inline.len() > 0 {
                    prompt = Some(inline);
                } else {
                    let following = join_lines_from(&lines, i + 1, '\n');
                    proof {
                        reveal_strlit("\n");
                    }
                    assert(seq!['\n'] =~= "\n"@);
                    let t = trim_chars(&following);
                    if t.len() > 0 {
                        prompt = Some(t);
                    } else {
                        prompt = None;
                    }
                }
            },
        }
        i = i + 1;
    }
    prompt
}

// ---------------------------------------------------------------------------
// Session titles
// ---------------------------------------------------------------------------

/// "# Context from my IDE setup:"
pub open spec fn vscode_context_prefix() -> Seq<char> {
    "# Context from my IDE setup:"@
}

/// The title a user message gives a session: the trimmed text, except that
/// injected blocks (empty text, AGENTS.md instructions, environment context)
/// give none, and VS Code's IDE context gives the request it carries.
pub open spec fn spec_title_candidate_from_user_message(text: Seq<char>) -> Option<Seq<char>> {
    let trimmed = trim(text);
    if trimmed.len() == 0 || starts_with(trimmed, "# AGENTS.md"@) || starts_with(
        trimmed,
        "<environment_context>"@,
    ) {
        None
    } else if starts_with(trimmed, vscode_context_prefix()) {
        spec_extract_codex_prompt_from_ide_context(trimmed)
    } else {
        Some(trimmed)
    }
}

pub fn title_candidate_from_user_message(text: &str) -> (r: Option<String>)
    ensures
        r matches Some(t) ==> spec_title_candidate_from_user_message(text@) == Some(t@),
        r is None ==> spec_title_candidate_from_user_message(text@) is None,
{
    let v = chars_of(text);
    let trimmed = trim_chars(&v);
    if trimmed.len() == 0 || chars_starts_with(&trimmed, &chars_of("# AGENTS.md"))
        || chars_starts_with(&trimmed, &chars_of("<environment_context>")) {
        return None;
    }
    if chars_starts_with(&trimmed, &chars_of("# Context from my IDE setup:")) {
        return match extract_codex_prompt_from_ide_context(&trimmed) {
            Some(p) => Some(string_from_chars(&p)),
            None => None,
        };
    }
    Some(string_from_chars(&trimmed))
}

/// A summary keeps at most 200 characters; a longer text is cut there and
/// ends with "...".
pub open spec fn spec_truncate_summary_text(text: Seq<char>) -> Seq<char> {
    if text.len() > 200 {
        text.take(200) + "..."@
    } else {
        text
    }
}

pub fn truncate_summary_text(text: &str) -> (r: String)
    ensures
        r@ == spec_truncate_summary_text(text@),
{
    let v = chars_of(text);
    if v.len() > 200 {
        let mut head = sub_chars(&v, 0, 200);
        let dots = chars_of("...");
        push_chars(&mut head, &dots);
        assert(head@ =~= v@.take(200) + "..."@);
        string_from_chars(&head)
    } else {
        text.to_owned()
    }
}

} // verus!
