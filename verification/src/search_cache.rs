use vstd::prelude::*;

use crate::models::{ClaudeMessage, MessageView};

verus! {

#[verifier::external_type_specification]
#[verifier::external_body]
#[verifier::reject_recursive_types(K)]
#[verifier::reject_recursive_types(V)]
#[verifier::reject_recursive_types(S)]
pub struct ExLruCache<K, V, S>(lru::LruCache<K, V, S>);

#[verifier::external_type_specification]
#[verifier::external_body]
pub struct ExLruHasher(lru::DefaultHasher);

/// Search results kept for reuse, stamped with the generation of the
/// session files they were computed from.
pub struct CachedSearch {
    pub generation: u64,
    pub results: Vec<ClaudeMessage>,
}

pub open spec fn msg_views(v: Seq<ClaudeMessage>) -> Seq<MessageView> {
    v.map_values(|m: ClaudeMessage| m@)
}

pub open spec fn cached_search_view(c: CachedSearch) -> (u64, Seq<MessageView>) {
    (c.generation, msg_views(c.results@))
}

/// What an LRU cache of search results holds: for each key, the generation
/// and the results stored under it.
pub uninterp spec fn lru_entries(c: lru::LruCache<u64, CachedSearch>) -> Map<u64, (u64, Seq<MessageView>)>;

/// How many entries an LRU cache of search results was made to hold.
pub uninterp spec fn lru_capacity(c: lru::LruCache<u64, CachedSearch>) -> nat;

/// `lru::LruCache::new`: an empty cache that holds up to `capacity` entries.
#[verifier::external_body]
fn lru_new(capacity: usize) -> (r: lru::LruCache<u64, CachedSearch>)
    requires
        capacity > 0,
    ensures
        forall|k: u64| !#[trigger] lru_entries(r).contains_key(k),
        lru_capacity(r) == capacity,
{
    lru::LruCache::new(std::num::NonZeroUsize::new(capacity).unwrap())
}

fn copy_cached(e: &CachedSearch) -> (r: CachedSearch)
    ensures
        cached_search_view(r) == cached_search_view(*e),
{
    let mut results: Vec<ClaudeMessage> = Vec::new();
    let mut i: usize = 0;
    while i < e.results.len()
        invariant
            i <= e.results.len(),
            results.len() == i,
            forall|j: int| 0 <= j < i ==> #[trigger] results@[j]@ == e.results@[j]@,
        decreases e.results.len() - i,
    {
        results.push(e.results[i].duplicate());
        i = i + 1;
    }
    assert(msg_views(results@) =~= msg_views(e.results@));
    CachedSearch { generation: e.generation, results }
}

/// `lru::LruCache::get`: the entry kept under `key`, if any. Claimed: what
/// is kept does not change (the call only makes the entry the most recently
/// used), and the entry is the one kept under `key`.
#[verifier::external_body]
fn lru_get<'a>(c: &'a mut lru::LruCache<u64, CachedSearch>, key: u64) -> (r: Option<&'a CachedSearch>)
    ensures
        lru_entries(*final(c)) == lru_entries(*old(c)),
        lru_capacity(*final(c)) == lru_capacity(*old(c)),
        r is Some <==> lru_entries(*old(c)).contains_key(key),
        r matches Some(e) ==> cached_search_view(*e) == lru_entries(*old(c))[key],
{
    c.get(&key)
}

/// What a put of `val` under `key` leaves in an LRU cache that held `before`
/// and holds up to `cap` entries: where `key` was kept or the cache was not
/// full, exactly `before` with `key` holding `val`; else one other entry
/// leaves (the least recently used one) and `key` holds `val`.
pub open spec fn put_result(
    before: Map<u64, (u64, Seq<MessageView>)>,
    cap: nat,
    key: u64,
    val: (u64, Seq<MessageView>),
    after: Map<u64, (u64, Seq<MessageView>)>,
) -> bool {
    if before.contains_key(key) || before.dom().len() < cap {
        after == before.insert(key, val)
    } else {
        exists|k: u64| k != key && #[trigger] before.contains_key(k) && after == before.remove(k).insert(key, val)
    }
}

/// `lru::LruCache::put`: keeps `v` under `key`. Claimed: `key` then holds
/// `v`; where `key` was kept already or the cache was not full, nothing else
/// changes; where it was full, exactly one other entry leaves (the least
/// recently used; which one that is is not stated here). The cache keeps a
/// finite number of entries, no more than its capacity.
#[verifier::external_body]
fn lru_put(c: &mut lru::LruCache<u64, CachedSearch>, key: u64, v: CachedSearch)
    ensures
        lru_capacity(*final(c)) == lru_capacity(*old(c)),
        put_result(
            lru_entries(*old(c)),
            lru_capacity(*old(c)),
            key,
            cached_search_view(v),
            lru_entries(*final(c)),
        ),
        lru_entries(*final(c)).dom().finite(),
        lru_entries(*final(c)).dom().len() <= lru_capacity(*final(c)),
        lru_entries(*final(c)).contains_key(key),
        lru_entries(*final(c))[key] == cached_search_view(v),
        forall|k: u64|
            k != key && #[trigger] lru_entries(*final(c)).contains_key(k) ==> lru_entries(
                *old(c),
            ).contains_key(k) && lru_entries(*final(c))[k] == lru_entries(*old(c))[k],
{
    c.put(key, v);
}

/// How many searches are kept.
pub const SEARCH_CACHE_CAPACITY: usize = 64;

/// Search results kept for reuse: each under a key of its query, stamped
/// with the generation of the session files it was computed from. A change
/// of the files starts a new generation, and results of an older one are no
/// longer given back.
pub struct SearchCache {
    pub generation: u64,
    pub entries: lru::LruCache<u64, CachedSearch>,
}

pub struct SearchCacheView {
    pub generation: u64,
    pub entries: Map<u64, (u64, Seq<MessageView>)>,
    pub capacity: nat,
}

impl View for SearchCache {
    type V = SearchCacheView;

    open spec fn view(&self) -> SearchCacheView {
        SearchCacheView {
            generation: self.generation,
            entries: lru_entries(self.entries),
            capacity: lru_capacity(self.entries),
        }
    }
}

/// The results kept for `key`, where they were computed in the current
/// generation.
pub open spec fn spec_lookup(c: SearchCacheView, key: u64) -> Option<Seq<MessageView>> {
    if c.entries.contains_key(key) && c.entries[key].0 == c.generation {
        Some(c.entries[key].1)
    } else {
        None
    }
}

/// The generation after `g` (the counter wraps around, as an atomic
/// `fetch_add` does).
pub open spec fn next_generation(g: u64) -> u64 {
    if g == u64::MAX {
        0
    } else {
        (g + 1) as u64
    }
}

/// Every kept entry was computed in a generation no later than the current
/// one.
pub open spec fn entries_not_newer(c: SearchCacheView) -> bool {
    forall|k: u64| #[trigger] c.entries.contains_key(k) ==> c.entries[k].0 <= c.generation
}

impl SearchCache {
    /// An empty cache for up to `capacity` searches, at generation 0.
    pub fn new(capacity: usize) -> (r: SearchCache)
        requires
            capacity > 0,
        ensures
            r@.generation == 0,
            r@.capacity == capacity,
            forall|k: u64| !#[trigger] r@.entries.contains_key(k),
    {
        SearchCache { generation: 0, entries: lru_new(capacity) }
    }

    /// The current generation.
    pub fn current_generation(&self) -> (r: u64)
        ensures
            r == self@.generation,
    {
        self.generation
    }

    /// The session files changed: a new generation starts.
    pub fn invalidate(&mut self)
        ensures
            final(self)@.generation == next_generation(old(self)@.generation),
            final(self)@.entries == old(self)@.entries,
            final(self)@.capacity == old(self)@.capacity,
    {
        self.generation = self.generation.wrapping_add(1);
    }

    /// The results kept for `key`, where they are of the current generation.
    pub fn lookup(&mut self, key: u64) -> (r: Option<Vec<ClaudeMessage>>)
        ensures
            final(self)@ == old(self)@,
            match spec_lookup(old(self)@, key) {
                Some(ms) => r matches Some(v) && msg_views(v@) == ms,
                None => r is None,
            },
    {
        let generation = self.generation;
        match lru_get(&mut self.entries, key) {
            Some(e) => {
                if e.generation == generation {
                    Some(copy_cached(e).results)
                } else {
                    None
                }
            },
            None => None,
        }
    }

    /// Keeps `results` under `key`, stamped with `generation` (the one read
    /// before they were computed). Other entries stay, but for the least
    /// recently used one where the cache is full and `key` is new.
    pub fn store(&mut self, key: u64, generation: u64, results: Vec<ClaudeMessage>)
        ensures
            final(self)@.generation == old(self)@.generation,
            final(self)@.capacity == old(self)@.capacity,
            put_result(
                old(self)@.entries,
                old(self)@.capacity,
                key,
                (generation, msg_views(results@)),
                final(self)@.entries,
            ),
            final(self)@.entries.contains_key(key),
            final(self)@.entries[key] == (generation, msg_views(results@)),
            forall|k: u64|
                k != key && #[trigger] final(self)@.entries.contains_key(k) ==> old(
                    self,
                )@.entries.contains_key(k) && final(self)@.entries[k] == old(self)@.entries[k],
    {
        lru_put(&mut self.entries, key, CachedSearch { generation, results });
    }
}

/// After the session files change, no result kept before is given back:
/// the next search of any query is computed from the files as they are
/// then.
pub proof fn law_invalidate_forgets_results(c: SearchCacheView, key: u64)
    requires
        entries_not_newer(c),
        c.generation < u64::MAX,
    ensures
        spec_lookup(
            SearchCacheView {
                generation: next_generation(c.generation),
                entries: c.entries,
                capacity: c.capacity,
            },
            key,
        ) is None,
{
}

/// A search stored in the current generation is given back by the next
/// lookup of its key, until the files change.
pub proof fn law_lookup_gives_back_stored(
    before: SearchCacheView,
    after: SearchCacheView,
    key: u64,
    results: Seq<MessageView>,
)
    requires
        after.generation == before.generation,
        after.entries.contains_key(key),
        after.entries[key] == (before.generation, results),
    ensures
        spec_lookup(after, key) == Some(results),
{
}

/// Storing keeps every entry no newer than the current generation, where
/// the stored one is no newer either; a new generation keeps it too.
pub proof fn law_entries_stay_not_newer(
    before: SearchCacheView,
    after: SearchCacheView,
    key: u64,
    generation: u64,
    results: Seq<MessageView>,
)
    requires
        entries_not_newer(before),
        generation <= before.generation,
        after.generation == before.generation,
        after.entries.contains_key(key),
        after.entries[key] == (generation, results),
        forall|k: u64|
            k != key && #[trigger] after.entries.contains_key(k) ==> before.entries.contains_key(k)
                && after.entries[k] == before.entries[k],
    ensures
        entries_not_newer(after),
        before.generation < u64::MAX ==> entries_not_newer(
            SearchCacheView {
                generation: next_generation(before.generation),
                entries: before.entries,
                capacity: before.capacity,
            },
        ),
{
}

/// While the cache is not full, or where the key is kept already, storing
/// a search changes no other entry.
pub proof fn law_store_keeps_others_until_full(
    before: SearchCacheView,
    after: SearchCacheView,
    key: u64,
    val: (u64, Seq<MessageView>),
    k: u64,
)
    requires
        put_result(before.entries, before.capacity, key, val, after.entries),
        before.entries.dom().len() < before.capacity || before.entries.contains_key(key),
        k != key,
    ensures
        after.entries.contains_key(k) == before.entries.contains_key(k),
        before.entries.contains_key(k) ==> after.entries[k] == before.entries[k],
{
}

} // verus!
