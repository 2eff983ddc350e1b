use vstd::prelude::*;

use crate::text::{chars_of, ends_with, starts_with, string_from_chars, chars_starts_with, chars_ends_with};

verus! {

/// The pieces of `s` between the separators `c` (`str::split`).
pub open spec fn split_on(s: Seq<char>, c: char) -> Seq<Seq<char>>
    decreases s.len(),
{
    if s.len() == 0 {
        seq![Seq::empty()]
    } else {
        let r = split_on(s.drop_last(), c);
        if s.last() == c {
            r.push(Seq::empty())
        } else {
            r.update(r.len() - 1, r.last().push(s.last()))
        }
    }
}

pub proof fn lemma_split_on_len(s: Seq<char>, c: char)
    ensures
        split_on(s, c).len() >= 1,
    decreases s.len(),
{
    if s.len() > 0 {
        lemma_split_on_len(s.drop_last(), c);
    }
}

/// A piece that `Path::components` keeps as a component: not empty, not ".".
pub open spec fn is_normal_piece(x: Seq<char>) -> bool {
    x.len() > 0 && x != seq!['.']
}

pub open spec fn keep_normal(pieces: Seq<Seq<char>>) -> Seq<Seq<char>>
    decreases pieces.len(),
{
    if pieces.len() == 0 {
        Seq::empty()
    } else {
        let r = keep_normal(pieces.drop_last());
        if is_normal_piece(pieces.last()) {
            r.push(pieces.last())
        } else {
            r
        }
    }
}

/// The components of a Unix path after its root, as `Path::components` yields
/// them: empty pieces (repeated or trailing separators) and "." pieces are
/// dropped, ".." is kept.
pub open spec fn path_components(p: Seq<char>) -> Seq<Seq<char>> {
    keep_normal(split_on(p, '/'))
}

/// `Path::file_name`: the last component, unless it is "..".
pub open spec fn path_file_name(p: Seq<char>) -> Option<Seq<char>> {
    let c = path_components(p);
    if c.len() == 0 || c.last() == seq!['.', '.'] {
        None
    } else {
        Some(c.last())
    }
}

/// `Path::parent().and_then(Path::file_name)`: the component before the last.
pub open spec fn path_parent_name(p: Seq<char>) -> Option<Seq<char>> {
    let c = path_components(p);
    if c.len() < 2 || c[c.len() - 2] == seq!['.', '.'] {
        None
    } else {
        Some(c[c.len() - 2])
    }
}

pub open spec fn pieces_view(v: Seq<Vec<char>>) -> Seq<Seq<char>> {
    v.map_values(|x: Vec<char>| x@)
}

fn is_normal_piece_exec(x: &Vec<char>) -> (r: bool)
    ensures
        r == is_normal_piece(x@),
{
    if x.len() == 0 {
        return false;
    }
    if x.len() == 1 && x[0] == '.' {
        assert(x@ =~= seq!['.']);
        return false;
    }
    assert(x@.len() != 1 ==> x@ != seq!['.']);
    assert(x@.len() == 1 ==> x@[0] != '.');
    true
}

/// The components of the path `p`.
pub fn components(p: &str) -> (r: Vec<Vec<char>>)
    ensures
        pieces_view(r@) == path_components(p@),
{
    let cs = chars_of(p);
    let mut out: Vec<Vec<char>> = Vec::new();
    let mut cur: Vec<char> = Vec::new();
    let mut i: usize = 0;
    assert(cs@.take(0) =~= Seq::<char>::empty());
    assert(pieces_view(out@) =~= Seq::<Seq<char>>::empty());
    while i < cs.len()
        invariant
            i <= cs.len(),
            cs@ == p@,
            split_on(cs@.take(i as int), '/').len() >= 1,
            cur@ == split_on(cs@.take(i as int), '/').last(),
            pieces_view(out@) == keep_normal(split_on(cs@.take(i as int), '/').drop_last()),
        decreases cs.len() - i,
    {
        let ghost t = cs@.take(i + 1);
        let ghost r = split_on(cs@.take(i as int), '/');
        assert(t.drop_last() =~= cs@.take(i as int));
        assert(t.last() == cs@[i as int]);
        let c = cs[i];
        if c == '/' {
            assert(split_on(t, '/') == r.push(Seq::empty()));
            assert(r.push(Seq::empty()).drop_last() =~= r);
            assert(r == r.drop_last().push(r.last()));
            let keep = is_normal_piece_exec(&cur);
            if keep {
                let ghost before = out@;
                out.push(cur);
                assert(pieces_view(out@) =~= pieces_view(before).push(r.last()));
            }
            cur = Vec::new();
            assert(cur@ =~= Seq::<char>::empty());
        } else {
            cur.push(c);
            assert(split_on(t, '/') == r.update(r.len() - 1, r.last().push(c)));
            assert(r.update(r.len() - 1, r.last().push(c)).drop_last() =~= r.drop_last());
        }
        i = i + 1;
        proof {
            crate::codex::paths::lemma_split_on_len(cs@.take(i as int), '/');
        }
    }
    assert(cs@.take(i as int) =~= cs@);
    let ghost r = split_on(cs@, '/');
    assert(r == r.drop_last().push(r.last()));
    if is_normal_piece_exec(&cur) {
        let ghost before = out@;
        out.push(cur);
        assert(pieces_view(out@) =~= pieces_view(before).push(r.last()));
    }
    out
}

fn is_dot_dot(x: &Vec<char>) -> (r: bool)
    ensures
        r == (x@ == seq!['.', '.']),
{
    if x.len() == 2 && x[0] == '.' && x[1] == '.' {
        assert(x@ =~= seq!['.', '.']);
        true
    } else {
        false
    }
}

/// `Path::new(p).file_name()`
pub fn file_name(p: &str) -> (r: Option<String>)
    ensures
        r matches Some(s) ==> path_file_name(p@) == Some(s@),
        r is None ==> path_file_name(p@) is None,
{
    let c = components(p);
    if c.len() == 0 {
        return None;
    }
    let last = &c[c.len() - 1];
    assert(pieces_view(c@).last() == last@);
    if is_dot_dot(last) {
        None
    } else {
        Some(string_from_chars(last))
    }
}

/// `path.parent().and_then(|p| p.file_name())`
pub fn parent_name(p: &str) -> (r: Option<String>)
    ensures
        r matches Some(s) ==> path_parent_name(p@) == Some(s@),
        r is None ==> path_parent_name(p@) is None,
{
    let c = components(p);
    if c.len() < 2 {
        return None;
    }
    let second = &c[c.len() - 2];
    assert(pieces_view(c@)[c.len() - 2] == second@);
    if is_dot_dot(second) {
        None
    } else {
        Some(string_from_chars(second))
    }
}

/// The project name of a working directory: its last path component, or the
/// whole text where it has none.
pub open spec fn spec_project_name_from_cwd(cwd: Seq<char>) -> Seq<char> {
    match path_file_name(cwd) {
        Some(n) => n,
        None => cwd,
    }
}

pub fn project_name_from_cwd(cwd: &str) -> (r: String)
    ensures
        r@ == spec_project_name_from_cwd(cwd@),
{
    match file_name(cwd) {
        Some(n) => n,
        None => cwd.to_owned(),
    }
}

/// A Codex rollout file: its name starts with "rollout-" and ends with
/// ".jsonl" (for such names, exactly the names whose extension is "jsonl").
pub open spec fn spec_is_rollout_jsonl(path: Seq<char>) -> bool {
    match path_file_name(path) {
        Some(n) => starts_with(n, "rollout-"@) && ends_with(n, ".jsonl"@),
        None => false,
    }
}

pub fn is_rollout_jsonl(path: &str) -> (r: bool)
    ensures
        r == spec_is_rollout_jsonl(path@),
{
    match file_name(path) {
        Some(n) => {
            let v = chars_of(n.as_str());
            let pre = chars_of("rollout-");
            let suf = chars_of(".jsonl");
            chars_starts_with(&v, &pre) && chars_ends_with(&v, &suf)
        },
        None => false,
    }
}

} // verus!
