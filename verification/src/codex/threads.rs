use vstd::prelude::*;

use crate::codex::convert::{or_str, str_or};
use crate::codex::titles::{lines_of, spec_lines};
use crate::json::{group_json_view, serde_json_parsed, Json, JsonValue};
use crate::sort::text_order;
use crate::text::{chars_of, string_from_chars, str_eq, trim, trim_chars, trim_str};

verus! {

broadcast use group_json_view;

/// The name the user gave a thread, and when.
pub struct CodexThreadTitle {
    pub name: String,
    pub updated_at: String,
}

/// One kept title: the thread id, the name, and when it was given.
pub struct TitleEntry {
    pub id: Seq<char>,
    pub name: Seq<char>,
    pub updated_at: Seq<char>,
}

/// The thread titles of the session index, each thread id once.
pub struct ThreadTitles {
    pub entries: Vec<(String, CodexThreadTitle)>,
}

pub open spec fn entry_view(e: (String, CodexThreadTitle)) -> TitleEntry {
    TitleEntry { id: e.0@, name: e.1.name@, updated_at: e.1.updated_at@ }
}

impl View for ThreadTitles {
    type V = Seq<TitleEntry>;

    open spec fn view(&self) -> Seq<TitleEntry> {
        self.entries@.map_values(|e: (String, CodexThreadTitle)| entry_view(e))
    }
}

/// The position of the title kept for `id`.
pub open spec fn title_pos(entries: Seq<TitleEntry>, id: Seq<char>) -> Option<int>
    decreases entries.len(),
{
    if entries.len() == 0 {
        None
    } else if entries.last().id == id {
        Some(entries.len() - 1)
    } else {
        title_pos(entries.drop_last(), id)
    }
}

pub proof fn lemma_title_pos(entries: Seq<TitleEntry>, id: Seq<char>)
    ensures
        title_pos(entries, id) matches Some(p) ==> 0 <= p < entries.len() && entries[p].id == id,
        title_pos(entries, id) is None ==> forall|q: int|
            0 <= q < entries.len() ==> #[trigger] entries[q].id != id,
    decreases entries.len(),
{
    if entries.len() > 0 {
        lemma_title_pos(entries.drop_last(), id);
        if title_pos(entries, id) is None {
            assert forall|q: int| 0 <= q < entries.len() implies #[trigger] entries[q].id != id by {
                if q < entries.len() - 1 {
                    assert(entries.drop_last()[q] == entries[q]);
                }
            }
        }
    }
}

/// The title kept for `id`, where there is one.
pub open spec fn title_of(entries: Seq<TitleEntry>, id: Seq<char>) -> Option<Seq<char>> {
    match title_pos(entries, id) {
        Some(p) => Some(entries[p].name),
        None => None,
    }
}

/// No thread id is kept twice.
pub open spec fn ids_distinct(entries: Seq<TitleEntry>) -> bool {
    forall|a: int, b: int|
        0 <= a < b < entries.len() ==> #[trigger] entries[a].id != #[trigger] entries[b].id
}

/// Keeps `name` for `id`: a thread not seen yet gets it, a thread seen before
/// gets it only where `updated_at` comes after the time of the kept name.
pub open spec fn spec_keep_title(
    entries: Seq<TitleEntry>,
    id: Seq<char>,
    name: Seq<char>,
    updated_at: Seq<char>,
) -> Seq<TitleEntry> {
    let e = TitleEntry { id, name, updated_at };
    match title_pos(entries, id) {
        Some(p) => if text_order(updated_at, entries[p].updated_at) > 0 {
            entries.update(p, e)
        } else {
            entries
        },
        None => entries.push(e),
    }
}

/// One line of the session index: a JSON object with a string `id` and a
/// `thread_name` that is not blank; `updated_at` is empty where it has none.
pub open spec fn spec_title_line(entries: Seq<TitleEntry>, line: Seq<char>) -> Seq<TitleEntry> {
    let t = trim(line);
    if t.len() == 0 {
        entries
    } else {
        match serde_json_parsed(t) {
            None => entries,
            Some(v) => match (v.str_at("id"@), v.str_at("thread_name"@)) {
                (Some(id), Some(raw_name)) => {
                    let name = trim(raw_name);
                    if name.len() == 0 {
                        entries
                    } else {
                        spec_keep_title(entries, id, name, or_str(v.str_at("updated_at"@), ""@))
                    }
                },
                _ => entries,
            },
        }
    }
}

pub open spec fn spec_titles_fold(lines: Seq<Seq<char>>) -> Seq<TitleEntry>
    decreases lines.len(),
{
    if lines.len() == 0 {
        Seq::empty()
    } else {
        spec_title_line(spec_titles_fold(lines.drop_last()), lines.last())
    }
}

/// The thread titles that the session index `content` gives.
pub open spec fn spec_thread_titles(content: Seq<char>) -> Seq<TitleEntry> {
    spec_titles_fold(spec_lines(content))
}

proof fn lemma_keep_title_distinct(
    entries: Seq<TitleEntry>,
    id: Seq<char>,
    name: Seq<char>,
    updated_at: Seq<char>,
)
    requires
        ids_distinct(entries),
    ensures
        ids_distinct(spec_keep_title(entries, id, name, updated_at)),
{
    lemma_title_pos(entries, id);
    let r = spec_keep_title(entries, id, name, updated_at);
    assert forall|a: int, b: int| 0 <= a < b < r.len() implies #[trigger] r[a].id != #[trigger] r[b].id by {
        if title_pos(entries, id) is None {
            if b == entries.len() {
                assert(r[a] == entries[a]);
            }
        }
    }
}

impl ThreadTitles {
    pub closed spec fn well_formed(&self) -> bool {
        ids_distinct(self@)
    }

    /// No titles.
    pub fn new() -> (r: ThreadTitles)
        ensures
            r@ == Seq::<TitleEntry>::empty(),
            r.well_formed(),
    {
        let r = ThreadTitles { entries: Vec::new() };
        assert(r@ =~= Seq::<TitleEntry>::empty());
        r
    }

    fn position(&self, id: &str) -> (r: Option<usize>)
        ensures
            r matches Some(p) ==> title_pos(self@, id@) == Some(p as int) && p < self.entries.len(),
            r is None ==> title_pos(self@, id@) is None,
    {
        let n = self.entries.len();
        assert(self@.take(n as int) =~= self@);
        proof {
            lemma_title_pos(self@, id@);
        }
        let mut i: usize = n;
        while i > 0
            invariant
                i <= n,
                n == self.entries.len(),
                title_pos(self@, id@) == title_pos(self@.take(i as int), id@),
            decreases i,
        {
            assert(self@.take(i as int).last() == entry_view(self.entries@[i - 1]));
            assert(self@.take(i as int).drop_last() =~= self@.take(i - 1));
            if str_eq(self.entries[i - 1].0.as_str(), id) {
                return Some(i - 1);
            }
            i = i - 1;
        }
        None
    }

    /// The title kept for the thread `id`.
    pub fn get(&self, id: &str) -> (r: Option<&CodexThreadTitle>)
        ensures
            r matches Some(t) ==> title_of(self@, id@) == Some(t.name@),
            r is None ==> title_of(self@, id@) is None,
    {
        assert(self@.take(self.entries.len() as int) =~= self@);
        match self.position(id) {
            Some(p) => Some(&self.entries[p].1),
            None => None,
        }
    }

    fn keep(&mut self, id: &str, name: &str, updated_at: &str)
        requires
            old(self).well_formed(),
        ensures
            final(self).well_formed(),
            final(self)@ == spec_keep_title(old(self)@, id@, name@, updated_at@),
    {
        proof {
            lemma_keep_title_distinct(self@, id@, name@, updated_at@);
            assert(self@.take(self.entries.len() as int) =~= self@);
        }
        let title = CodexThreadTitle { name: name.to_owned(), updated_at: updated_at.to_owned() };
        match self.position(id) {
            Some(p) => {
                let newer = text_after(updated_at, self.entries[p].1.updated_at.as_str());
                if newer {
                    let ghost before = self@;
                    self.entries.set(p, (id.to_owned(), title));
                    assert(self@ =~= before.update(
                        p as int,
                        TitleEntry { id: id@, name: name@, updated_at: updated_at@ },
                    ));
                }
            },
            None => {
                let ghost before = self@;
                self.entries.push((id.to_owned(), title));
                assert(self@ =~= before.push(
                    TitleEntry { id: id@, name: name@, updated_at: updated_at@ },
                ));
            },
        }
    }
}

/// `a > b` on strings.
pub fn text_after(a: &str, b: &str) -> (r: bool)
    ensures
        r == (text_order(a@, b@) > 0),
{
    let ka = crate::sort::SortKey { instant: None, text: chars_of(a) };
    let kb = crate::sort::SortKey { instant: None, text: chars_of(b) };
    crate::sort::compare_keys(&ka, &kb) > 0
}

/// The thread titles that the session index (`session_index.jsonl`) gives:
/// for each thread, the name of its latest renaming.
pub fn load_thread_titles_from_index(content: &str) -> (r: ThreadTitles)
    ensures
        r@ == spec_thread_titles(content@),
        r.well_formed(),
{
    let lines = lines_of(&chars_of(content));
    let ghost lv = spec_lines(content@);
    let mut titles = ThreadTitles::new();
    let mut i: usize = 0;
    assert(lv.take(0) =~= Seq::<Seq<char>>::empty());
    while i < lines.len()
        invariant
            i <= lines.len(),
            lv == crate::codex::titles::lines_view(lines@),
            lv.len() == lines@.len(),
            titles.well_formed(),
            titles@ == spec_titles_fold(lv.take(i as int)),
        decreases lines.len() - i,
    {
        assert(lv.take(i + 1).drop_last() =~= lv.take(i as int));
        assert(lv.take(i + 1).last() == lines@[i as int]@);
        let trimmed = trim_chars(&lines[i]);
        if trimmed.len() > 0 {
            let text = string_from_chars(&trimmed);
            match JsonValue::parse_text(text.as_str()) {
                Some(v) => match (v.str_at("id"), v.str_at("thread_name")) {
                    (Some(id), Some(raw_name)) => {
                        let name = trim_str(raw_name);
                        if !name.as_str().is_empty() {
                            let updated = str_or(v.str_at("updated_at"), "");
                            titles.keep(id, name.as_str(), updated);
                        }
                    },
                    _ => {},
                },
                None => {},
            }
        }
        i = i + 1;
    }
    assert(lv.take(lines.len() as int) =~= lv);
    titles
}

} // verus!
