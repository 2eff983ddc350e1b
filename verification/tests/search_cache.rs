use history_viewer::models::{build_provider_message, ClaudeMessage};
use history_viewer::search_cache::{SearchCache, SEARCH_CACHE_CAPACITY};

fn message(uuid: &str) -> ClaudeMessage {
    build_provider_message("viewer", uuid.to_string(), "s", "2026-01-01T00:00:00Z".to_string(), "user", Some("user"), None, None)
}

fn uuids(v: &Option<Vec<ClaudeMessage>>) -> Option<Vec<String>> {
    v.as_ref().map(|ms| ms.iter().map(|m| m.uuid.clone()).collect())
}

#[test]
fn stored_results_come_back_in_the_same_generation() {
    let mut cache = SearchCache::new(SEARCH_CACHE_CAPACITY);
    assert_eq!(cache.current_generation(), 0);
    assert!(cache.lookup(7).is_none());
    let g = cache.current_generation();
    cache.store(7, g, vec![message("a"), message("b")]);
    assert_eq!(uuids(&cache.lookup(7)), Some(vec!["a".to_string(), "b".to_string()]));
    assert!(cache.lookup(8).is_none());
}

#[test]
fn invalidation_forgets_earlier_results() {
    let mut cache = SearchCache::new(4);
    let g = cache.current_generation();
    cache.store(1, g, vec![message("old")]);
    cache.invalidate();
    assert_eq!(cache.current_generation(), 1);
    assert!(cache.lookup(1).is_none());
    // a search computed before the change but stored after it stays unused
    cache.store(2, g, vec![message("stale")]);
    assert!(cache.lookup(2).is_none());
    let now = cache.current_generation();
    cache.store(1, now, vec![message("new")]);
    assert_eq!(uuids(&cache.lookup(1)), Some(vec!["new".to_string()]));
}

#[test]
fn a_full_cache_drops_the_least_recently_used_search() {
    let mut cache = SearchCache::new(2);
    cache.store(1, 0, vec![message("one")]);
    cache.store(2, 0, vec![message("two")]);
    assert!(cache.lookup(1).is_some());
    cache.store(3, 0, vec![message("three")]);
    assert!(cache.lookup(2).is_none());
    assert!(cache.lookup(1).is_some());
    assert!(cache.lookup(3).is_some());
}

#[test]
fn storing_drops_nothing_until_the_cache_is_full() {
    let mut cache = SearchCache::new(2);
    cache.store(1, 0, vec![message("one")]);
    cache.store(2, 0, vec![message("two")]);
    // the cache is full, but key 2 is kept already: nothing leaves
    cache.store(2, 0, vec![message("two again")]);
    assert_eq!(uuids(&cache.lookup(1)), Some(vec!["one".to_string()]));
    assert_eq!(uuids(&cache.lookup(2)), Some(vec!["two again".to_string()]));
}
