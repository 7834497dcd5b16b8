use paged_fetcher::cache::Cache;

#[test]
fn fresh_cache_is_empty() {
    let mut cache = Cache::new();
    assert_eq!(cache.remove(&String::from("https://example.com/a")), None);
}

#[test]
fn take_is_single_use() {
    let mut cache = Cache::new();
    let key = String::from("https://example.com/a");
    cache.insert(key.clone(), String::from("BODY"));
    assert_eq!(cache.remove(&key), Some(String::from("BODY")));
    assert_eq!(cache.remove(&key), None);
}

#[test]
fn insert_overwrites_pending_entry() {
    let mut cache = Cache::new();
    let key = String::from("https://example.com/a");
    cache.insert(key.clone(), String::from("OLD"));
    cache.insert(key.clone(), String::from("NEW"));
    assert_eq!(cache.remove(&key), Some(String::from("NEW")));
    assert_eq!(cache.remove(&key), None);
}

#[test]
fn keys_are_independent() {
    let mut cache = Cache::new();
    let a = String::from("https://example.com/a");
    let b = String::from("https://example.com/b");
    cache.insert(a.clone(), String::from("ONE"));
    cache.insert(b.clone(), String::from("TWO"));
    assert_eq!(cache.remove(&a), Some(String::from("ONE")));
    assert_eq!(cache.remove(&b), Some(String::from("TWO")));
    assert_eq!(cache.remove(&a), None);
    assert_eq!(cache.remove(&b), None);
}
