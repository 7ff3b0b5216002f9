use window_buttons::cache::{
    complete_lookup, decide_ownership_change, query_cached, CacheLookup, CacheStorage,
    OwnershipDecision,
};

#[test]
fn repeated_query_hits_without_second_lookup() {
    let mut storage = CacheStorage::new(100);
    // First query misses; the daemon lookup's result is cached.
    assert!(matches!(query_cached(&mut storage, ":1.42", 0), CacheLookup::Miss));
    assert_eq!(complete_lookup(&mut storage, ":1.42", Some(1234), 0), Some(1234));
    // A second query within the time-to-live hits with the identical value.
    assert!(matches!(
        query_cached(&mut storage, ":1.42", 50),
        CacheLookup::Hit(Some(1234))
    ));
}

#[test]
fn sweep_purges_elapsed_entry() {
    let mut storage = CacheStorage::new(100);
    complete_lookup(&mut storage, ":1.42", Some(7), 0);
    // Expiry is at 100; a sweep just before keeps the entry.
    storage.remove_expired(99);
    assert!(matches!(
        query_cached(&mut storage, ":1.42", 99),
        CacheLookup::Hit(Some(7))
    ));
    // The hit refreshed the expiry to 199: a sweep at 150 keeps it.
    storage.remove_expired(150);
    assert!(matches!(
        query_cached(&mut storage, ":1.42", 150),
        CacheLookup::Hit(Some(7))
    ));
}

#[test]
fn sweep_removes_unrefreshed_entry() {
    let mut storage = CacheStorage::new(100);
    complete_lookup(&mut storage, ":1.42", Some(7), 0);
    storage.remove_expired(100);
    assert!(matches!(query_cached(&mut storage, ":1.42", 100), CacheLookup::Miss));
}

#[test]
fn eviction_invalidates_at_once() {
    let mut storage = CacheStorage::new(1000);
    complete_lookup(&mut storage, ":1.42", Some(7), 0);
    storage.evict(":1.42");
    // Long before the time-to-live would have elapsed.
    assert!(matches!(query_cached(&mut storage, ":1.42", 1), CacheLookup::Miss));
}

#[test]
fn failed_lookup_stores_nothing() {
    let mut storage = CacheStorage::new(100);
    assert_eq!(complete_lookup(&mut storage, ":1.42", None, 0), None);
    assert!(matches!(query_cached(&mut storage, ":1.42", 1), CacheLookup::Miss));
}

#[test]
fn entries_are_per_identity() {
    let mut storage = CacheStorage::new(100);
    complete_lookup(&mut storage, ":1.1", Some(1), 0);
    complete_lookup(&mut storage, ":1.2", Some(2), 0);
    storage.evict(":1.1");
    assert!(matches!(query_cached(&mut storage, ":1.1", 1), CacheLookup::Miss));
    assert!(matches!(
        query_cached(&mut storage, ":1.2", 1),
        CacheLookup::Hit(Some(2))
    ));
}

#[test]
fn retrieve_returns_cached_value_and_store_overwrites() {
    let mut storage = CacheStorage::new(10);
    storage.store(":1.9", Some(44), 0);
    assert_eq!(storage.retrieve(":1.9", 1), Some(Some(44)));
    storage.store(":1.9", None, 2);
    assert_eq!(storage.retrieve(":1.9", 3), Some(None));
    assert_eq!(storage.retrieve(":1.8", 3), None);
}

#[test]
fn ownership_change_decisions() {
    let new_owner = Some(":1.7".to_string());
    let old_owner = Some(":1.6".to_string());
    assert!(matches!(
        decide_ownership_change(&old_owner, &new_owner),
        OwnershipDecision::ResolveNewOwner(n) if n == ":1.7"
    ));
    assert!(matches!(
        decide_ownership_change(&old_owner, &None),
        OwnershipDecision::EvictOldOwner(o) if o == ":1.6"
    ));
    assert!(matches!(
        decide_ownership_change(&None, &None),
        OwnershipDecision::Ignore
    ));
}
