use ferrotick::cache::{CacheMode, CacheStore};

#[test]
fn test_cache_store_basic_operations() {
    let mut cache = CacheStore::new(1_000);

    // Cache miss
    assert!(cache.get("key1", 0).is_none());

    // Put and get
    cache.put("key1", "value1", None, 0);
    assert_eq!(cache.get("key1", 0), Some("value1".to_string()));

    // Overwrite
    cache.put("key1", "value2", None, 0);
    assert_eq!(cache.get("key1", 0), Some("value2".to_string()));
}

#[test]
fn test_cache_expiration() {
    let mut cache = CacheStore::new(100);

    cache.put("key1", "value1", None, 0);
    assert!(cache.get("key1", 0).is_some());

    // 150 ms later the entry has expired.
    assert!(cache.get("key1", 150).is_none());
}

#[test]
fn test_cache_ttl_override() {
    let mut cache = CacheStore::new(60_000);

    cache.put("key1", "value1", Some(100), 0);

    assert!(cache.get("key1", 0).is_some());
    assert!(cache.get("key1", 150).is_none());
}

#[test]
fn test_cache_clear_expired() {
    let mut cache = CacheStore::new(100);

    cache.put("key1", "value1", None, 0);
    cache.put("key2", "value2", None, 0);

    assert_eq!(cache.len(), 2);

    cache.clear_expired(150);

    assert_eq!(cache.len(), 0);
}

#[test]
fn test_cache_clear_all() {
    let mut cache = CacheStore::new(60_000);

    cache.put("key1", "value1", None, 0);
    cache.put("key2", "value2", None, 0);

    assert_eq!(cache.len(), 2);
    cache.clear();
    assert_eq!(cache.len(), 0);
}

#[test]
fn test_cache_disabled() {
    let mut cache = CacheStore::disabled();

    assert!(cache.is_disabled());

    cache.put("key1", "value1", None, 0);
    assert!(cache.get("key1", 0).is_none());
    assert_eq!(cache.len(), 0);
}

#[test]
fn test_cache_mode_default() {
    let mode = CacheMode::default_mode();
    assert_eq!(mode, CacheMode::Use);
}

#[test]
fn read_after_write_within_ttl() {
    let mut cache = CacheStore::new(500);
    cache.put("k", "v", None, 1_000);
    assert_eq!(cache.get("k", 1_500), Some("v".to_string()));
    assert_eq!(cache.get("k", 1_501), None);
}

#[test]
fn clear_expired_keeps_live_entries() {
    let mut cache = CacheStore::new(100);
    cache.put("old", "a", None, 0);
    cache.put("new", "b", None, 90);
    cache.clear_expired(120);
    assert_eq!(cache.len(), 1);
    assert_eq!(cache.get("new", 120), Some("b".to_string()));
    assert_eq!(cache.get("old", 120), None);
}

#[test]
fn default_ttl_is_five_minutes() {
    let mut cache = CacheStore::with_default_ttl();
    cache.put("k", "v", None, 0);
    assert_eq!(cache.get("k", 300_000), Some("v".to_string()));
    assert_eq!(cache.get("k", 300_001), None);
}
