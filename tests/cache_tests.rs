use images_api::cache::{CacheKey, LruCache, Variant};

fn key(p: &str) -> CacheKey {
    CacheKey::new(p.to_string(), Variant::Full)
}

#[test]
fn capacity_bound_evicts_first_inserted() {
    let mut c: LruCache<u32> = LruCache::new(3);
    for (i, p) in ["a", "b", "c", "d"].iter().enumerate() {
        c.put(key(p), i as u32);
    }
    assert_eq!(c.len(), 3);
    assert_eq!(c.peek(&key("a")), None);
    assert_eq!(c.peek(&key("b")), Some(&1));
    assert_eq!(c.peek(&key("d")), Some(&3));
}

#[test]
fn peek_does_not_refresh() {
    let mut c: LruCache<u32> = LruCache::new(2);
    c.put(key("a"), 1);
    c.put(key("b"), 2);
    assert_eq!(c.peek(&key("a")), Some(&1));
    c.put(key("c"), 3);
    assert_eq!(c.peek(&key("a")), None);
    assert_eq!(c.peek(&key("b")), Some(&2));
}

#[test]
fn put_again_refreshes_and_replaces() {
    let mut c: LruCache<u32> = LruCache::new(2);
    c.put(key("a"), 1);
    c.put(key("b"), 2);
    c.put(key("a"), 10);
    assert_eq!(c.len(), 2);
    c.put(key("c"), 3);
    assert_eq!(c.peek(&key("a")), Some(&10));
    assert_eq!(c.peek(&key("b")), None);
}

#[test]
fn variants_are_distinct_keys() {
    let mut c: LruCache<u32> = LruCache::new(4);
    c.put(CacheKey::new("x".to_string(), Variant::Full), 1);
    c.put(CacheKey::new("x".to_string(), Variant::Thumbnail), 2);
    assert_eq!(c.len(), 2);
    assert_eq!(c.peek(&CacheKey::new("x".to_string(), Variant::Full)), Some(&1));
    assert_eq!(c.peek(&CacheKey::new("x".to_string(), Variant::Thumbnail)), Some(&2));
    assert_eq!(c.peek(&CacheKey::new("./x".to_string(), Variant::Full)), None);
}

#[test]
fn zero_capacity_holds_nothing() {
    let mut c: LruCache<u32> = LruCache::new(0);
    c.put(key("a"), 1);
    assert_eq!(c.len(), 0);
    assert_eq!(c.capacity(), 0);
}

#[test]
fn clear_empties() {
    let mut c: LruCache<u32> = LruCache::new(2);
    c.put(key("a"), 1);
    c.clear();
    assert_eq!(c.len(), 0);
    assert_eq!(c.peek(&key("a")), None);
}
