use agent_k_backend::appcache::{
    FileIdCache, IndexingCounts, RunBuffer, RunRegistry, StoreAccess, StoreLru, MAX_OPEN_STORES,
};

#[test]
fn indexing_counts_balance() {
    let mut c = IndexingCounts::new();
    assert!(!c.is_indexing(1));
    c.begin(1);
    c.begin(1);
    c.begin(2);
    c.end(1);
    assert!(c.is_indexing(1));
    c.end(1);
    assert!(!c.is_indexing(1));
    c.end(1);
    assert!(!c.is_indexing(1), "the count never goes below zero");
    assert!(c.is_indexing(2));
}

#[test]
fn file_ids_are_valid_while_time_and_size_match() {
    let mut f = FileIdCache::new();
    assert_eq!(f.cached(1, "/k/a.md", 10, 3), None);
    f.cache(1, "/k/a.md".into(), 10, 3, 77);
    assert_eq!(f.cached(1, "/k/a.md", 10, 3), Some(77));
    assert_eq!(f.cached(1, "/k/a.md", 11, 3), None);
    assert_eq!(f.cached(1, "/k/a.md", 10, 4), None);
    assert_eq!(f.cached(2, "/k/a.md", 10, 3), None);
    f.cache(1, "/k/a.md".into(), 11, 3, 78);
    assert_eq!(f.cached(1, "/k/a.md", 11, 3), Some(78));
    assert_eq!(f.cached(1, "/k/a.md", 10, 3), None);
}

#[test]
fn store_cache_evicts_the_least_recently_used() {
    let mut lru = StoreLru::new();
    for p in 0..MAX_OPEN_STORES as u128 {
        assert_eq!(lru.access(p, p as u64 + 100), StoreAccess::Miss { evicted: None });
    }
    assert_eq!(lru.access(0, 500), StoreAccess::Hit);
    assert_eq!(lru.access(1000, 600), StoreAccess::Miss { evicted: Some(1) });
    assert_eq!(lru.access(1, 700), StoreAccess::Miss { evicted: Some(2) });
    assert_eq!(lru.access(0, 800), StoreAccess::Hit);
}

#[test]
fn run_outputs_are_numbered_in_order() {
    let mut b: RunBuffer<&str> = RunBuffer::new(9);
    assert_eq!(b.push("a"), 0);
    assert_eq!(b.push("b"), 1);
    assert_eq!(b.outputs(), &vec![(0, "a"), (1, "b")]);
    assert_eq!(b.run_id(), 9);

    let mut r: RunRegistry<&str> = RunRegistry::new();
    assert_eq!(r.push_output(5, "x"), None);
    assert!(!r.start(5, 1));
    assert_eq!(r.push_output(5, "x"), Some(0));
    assert_eq!(r.push_output(5, "y"), Some(1));
    assert!(r.start(5, 2), "a leaked run is replaced");
    assert_eq!(r.push_output(5, "z"), Some(0));
    assert!(r.has_active_run(5));
    assert!(r.end(5));
    assert!(!r.has_active_run(5));
    assert!(!r.end(5));
}
