use melops::index::{AccessError, ArtifactCache, CacheStrategy, IndexData, ResourceCache};
use std::collections::HashMap;

#[test]
fn resource_cache_get_returns_error_if_missing() {
    let mut cache = ResourceCache::<&str, i32>::new();

    let result = cache.access("key", CacheStrategy::Get, || -> Result<i32, String> {
        panic!("factory should not be called for Get")
    });
    assert!(result.is_err());
}

#[test]
fn resource_cache_get_returns_cached() {
    let mut cache = ResourceCache::new();
    cache.insert("key", 42);

    let result = cache
        .access("key", CacheStrategy::Get, || -> Result<i32, String> {
            panic!("factory should not be called for cached Get")
        })
        .unwrap();
    assert_eq!(result, &42);
}

#[test]
fn resource_cache_get_or_insert_caches_result() {
    let mut cache = ResourceCache::new();

    let result1 = *cache
        .access("key", CacheStrategy::GetOrInsert, || Ok::<_, String>(42))
        .unwrap();
    assert_eq!(result1, 42);

    // Second access should return cached value
    let result2 = cache
        .access("key", CacheStrategy::GetOrInsert, || -> Result<i32, String> {
            panic!("factory should not be called for cached value")
        })
        .unwrap();
    assert_eq!(result2, &42);
}

#[test]
fn resource_cache_replace_recomputes() {
    let mut cache = ResourceCache::new();
    cache.insert("key", 42);

    let result = cache
        .access("key", CacheStrategy::Replace, || Ok::<_, String>(99))
        .unwrap();
    assert_eq!(result, &99);
}

#[test]
fn resource_cache_serialization() {
    let mut cache = ResourceCache::new();
    cache.insert("key1".to_string(), "value1".to_string());
    cache.insert("key2".to_string(), "value2".to_string());

    let map: HashMap<String, String> = cache.entries().iter().cloned().collect();
    let json = serde_json::to_string(&map).unwrap();
    let parsed: HashMap<String, String> = serde_json::from_str(&json).unwrap();
    let mut loaded: ResourceCache<String, String> = ResourceCache::new();
    for (k, v) in parsed {
        loaded.insert(k, v);
    }

    assert_eq!(loaded.get(&"key1".to_string()), Some(&"value1".to_string()));
    assert_eq!(loaded.get(&"key2".to_string()), Some(&"value2".to_string()));
}

#[test]
fn insert_overwrites_and_keeps_other_keys() {
    let mut cache: ResourceCache<u64, &str> = ResourceCache::new();
    cache.insert(1, "a");
    cache.insert(2, "b");
    cache.insert(1, "c");
    assert_eq!(cache.get(&1), Some(&"c"));
    assert_eq!(cache.get(&2), Some(&"b"));
    assert_eq!(cache.get(&3), None);
    assert_eq!(cache.entries().len(), 2);
}

#[test]
fn factory_failure_leaves_cache_unchanged() {
    let mut cache: ResourceCache<String, i32> = ResourceCache::new();
    cache.insert("k".to_string(), 1);
    let res = cache.access("k".to_string(), CacheStrategy::Replace, || Err::<i32, &str>("boom"));
    assert!(matches!(res, Err(AccessError::Factory("boom"))));
    assert_eq!(cache.get(&"k".to_string()), Some(&1));
    let res = cache.access("other".to_string(), CacheStrategy::GetOrInsert, || Err::<i32, &str>("no"));
    assert!(matches!(res, Err(AccessError::Factory("no"))));
    assert_eq!(cache.get(&"other".to_string()), None);
    let res = cache.access("other".to_string(), CacheStrategy::Get, || Ok::<i32, &str>(5));
    assert!(matches!(res, Err(AccessError::NotCached)));
}

#[test]
fn default_cache_strategy_is_get_or_insert() {
    assert_eq!(CacheStrategy::default(), CacheStrategy::GetOrInsert);
}

#[test]
fn artifact_cache_uses_strategy_per_kind() {
    let mut index = ArtifactCache::new(
        IndexData::default(),
        "/cache/index.json".to_string(),
        CacheStrategy::Get,
        CacheStrategy::GetOrInsert,
        CacheStrategy::Replace,
    );
    assert!(index.ensure_pages("p".to_string(), || Ok::<_, String>(vec!["u".to_string()])).is_err());
    assert_eq!(
        index.ensure_audio("u".to_string(), || Ok::<_, String>("a.wav".to_string())).unwrap(),
        "a.wav"
    );
    assert_eq!(
        index.ensure_audio("u".to_string(), || -> Result<String, String> { panic!("cached") }).unwrap(),
        "a.wav"
    );
    index.ensure_srt("a".to_string(), || Ok::<_, String>("1.srt".to_string())).unwrap();
    assert_eq!(
        index.ensure_srt("a".to_string(), || Ok::<_, String>("2.srt".to_string())).unwrap(),
        "2.srt"
    );
    assert_eq!(index.path(), "/cache/index.json");
    assert_eq!(index.data().srt.get(&"a".to_string()), Some(&"2.srt".to_string()));
}
