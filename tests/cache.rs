use cli_web_search::cache::SearchCache;
use cli_web_search::config::CacheConfig;
use cli_web_search::results::SearchResult;

fn test_config() -> CacheConfig {
    CacheConfig {
        enabled: true,
        ttl_seconds: 3600,
        max_entries: 100,
    }
}

fn create_test_result(title: &str) -> SearchResult {
    SearchResult {
        title: title.to_string(),
        url: format!("https://example.com/{}", title),
        snippet: format!("Snippet for {}", title),
        position: 1,
        published_date: None,
        source: None,
    }
}

#[test]
fn test_cache_set_get() {
    let mut cache = SearchCache::new(test_config());
    let results = vec![create_test_result("Test")];
    cache.set("test query", "brave", results.clone());
    let cached = cache.get("test query", Some("brave"));
    assert!(cached.is_some());
    let (cached_results, provider) = cached.unwrap();
    assert_eq!(cached_results.len(), 1);
    assert_eq!(provider, "brave");
}

#[test]
fn test_cache_disabled() {
    let mut config = test_config();
    config.enabled = false;
    let mut cache = SearchCache::new(config);
    let results = vec![create_test_result("Test")];
    cache.set("test", "brave", results);
    assert!(cache.get("test", Some("brave")).is_none());
}

#[test]
fn test_cache_stats() {
    let cache = SearchCache::new(test_config());
    let stats = cache.stats();
    assert!(stats.enabled);
    assert_eq!(stats.entries, 0);
    assert_eq!(stats.max_entries, 100);
}

#[test]
fn test_cache_key_generation() {
    let key1 = SearchCache::cache_key("Test Query", Some("brave"));
    assert_eq!(key1, "brave:test query");
    let key2 = SearchCache::cache_key("Test Query", None);
    assert_eq!(key2, "test query");
    let key3 = SearchCache::cache_key("TEST QUERY", Some("brave"));
    assert_eq!(key3, "brave:test query");
}

#[test]
fn test_cache_clear() {
    let mut cache = SearchCache::new(test_config());
    cache.set("query1", "brave", vec![create_test_result("Result1")]);
    cache.set("query2", "google", vec![create_test_result("Result2")]);
    assert_eq!(cache.stats().entries, 2);
    cache.clear().unwrap();
    assert_eq!(cache.stats().entries, 0);
    assert!(cache.get("query1", Some("brave")).is_none());
    assert!(cache.get("query2", Some("google")).is_none());
}

#[test]
fn test_cache_different_providers() {
    let mut cache = SearchCache::new(test_config());
    cache.set("same query", "brave", vec![create_test_result("Brave Result")]);
    cache.set("same query", "google", vec![create_test_result("Google Result")]);
    let brave_cached = cache.get("same query", Some("brave"));
    let google_cached = cache.get("same query", Some("google"));
    assert!(brave_cached.is_some());
    assert!(google_cached.is_some());
    assert_eq!(brave_cached.unwrap().0[0].title, "Brave Result");
    assert_eq!(google_cached.unwrap().0[0].title, "Google Result");
}

#[test]
fn test_cache_case_insensitive_query() {
    let mut cache = SearchCache::new(test_config());
    cache.set("Test Query", "brave", vec![create_test_result("Result")]);
    let cached = cache.get("test query", Some("brave"));
    assert!(cached.is_some());
    let cached = cache.get("TEST QUERY", Some("brave"));
    assert!(cached.is_some());
}

#[test]
fn test_cache_miss_wrong_provider() {
    let mut cache = SearchCache::new(test_config());
    cache.set("query", "brave", vec![create_test_result("Result")]);
    let cached = cache.get("query", Some("google"));
    assert!(cached.is_none());
}

#[test]
fn test_cache_stats_after_operations() {
    let mut cache = SearchCache::new(test_config());
    assert_eq!(cache.stats().entries, 0);
    cache.set("query1", "brave", vec![create_test_result("Result1")]);
    assert_eq!(cache.stats().entries, 1);
    cache.set("query2", "brave", vec![create_test_result("Result2")]);
    assert_eq!(cache.stats().entries, 2);
    cache.clear().unwrap();
    assert_eq!(cache.stats().entries, 0);
}

#[test]
fn test_cache_max_entries_eviction() {
    let mut config = test_config();
    config.max_entries = 3;
    let mut cache = SearchCache::new(config);
    cache.set("query1", "brave", vec![create_test_result("Result1")]);
    cache.set("query2", "brave", vec![create_test_result("Result2")]);
    cache.set("query3", "brave", vec![create_test_result("Result3")]);
    assert_eq!(cache.stats().entries, 3);
    cache.set("query4", "brave", vec![create_test_result("Result4")]);
    assert!(cache.stats().entries <= 3);
}

#[test]
fn test_cache_stats_display() {
    let mut cache = SearchCache::new(test_config());
    cache.set("query", "brave", vec![create_test_result("Result")]);
    let stats = cache.stats();
    let display = stats.to_string();
    assert!(display.contains("Cache Statistics:"));
    assert!(display.contains("Enabled: true"));
    assert!(display.contains("Entries: 1"));
    assert!(display.contains("TTL:"));
}

#[test]
fn test_cache_multiple_results() {
    let mut cache = SearchCache::new(test_config());
    let results = vec![
        create_test_result("Result1"),
        create_test_result("Result2"),
        create_test_result("Result3"),
    ];
    cache.set("query", "brave", results);
    let cached = cache.get("query", Some("brave")).unwrap();
    assert_eq!(cached.0.len(), 3);
    assert_eq!(cached.0[0].title, "Result1");
    assert_eq!(cached.0[1].title, "Result2");
    assert_eq!(cached.0[2].title, "Result3");
}

#[test]
fn cache_key_scoping_and_case() {
    assert_eq!(
        SearchCache::cache_key("MiXeD Case", Some("tavily")),
        SearchCache::cache_key("mixed case", Some("tavily"))
    );
    assert_ne!(
        SearchCache::cache_key("q", Some("brave")),
        SearchCache::cache_key("q", Some("google"))
    );
    assert_ne!(SearchCache::cache_key("q", None), SearchCache::cache_key("q", Some("brave")));
}

#[test]
fn cache_entry_expires_after_ttl() {
    let config = CacheConfig { enabled: true, ttl_seconds: 2, max_entries: 10 };
    let mut cache = SearchCache::new(config);
    cache.set_at("rust", "brave", vec![create_test_result("R")], 1_000);
    let hit = cache.get_at("rust", Some("brave"), 2_999);
    assert_eq!(hit.unwrap().0[0].title, "R");
    assert!(cache.get_at("rust", Some("brave"), 3_000).is_none());
    assert!(cache.get_at("rust", Some("brave"), 50_000).is_none());
    // An expired entry stays until an eviction pass removes it.
    assert_eq!(cache.stats().entries, 1);
}

#[test]
fn cache_unscoped_lookup_misses_scoped_entry() {
    let mut cache = SearchCache::new(test_config());
    cache.set_at("rust", "brave", vec![create_test_result("R")], 0);
    assert!(cache.get_at("rust", None, 0).is_none());
}

#[test]
fn disabled_cache_never_grows() {
    let config = CacheConfig { enabled: false, ttl_seconds: 60, max_entries: 10 };
    let mut cache = SearchCache::new(config);
    for i in 0..5u64 {
        cache.set_at(&format!("q{}", i), "brave", vec![create_test_result("R")], i);
        assert_eq!(cache.stats().entries, 0);
        assert!(cache.get_at(&format!("q{}", i), Some("brave"), i).is_none());
    }
}

#[test]
fn eviction_prefers_expired_entries() {
    let config = CacheConfig { enabled: true, ttl_seconds: 1, max_entries: 3 };
    let mut cache = SearchCache::new(config);
    cache.set_at("old", "brave", vec![create_test_result("Old")], 0);
    cache.set_at("a", "brave", vec![create_test_result("A")], 5_000);
    cache.set_at("b", "brave", vec![create_test_result("B")], 5_000);
    cache.set_at("c", "brave", vec![create_test_result("C")], 5_100);
    assert_eq!(cache.stats().entries, 3);
    assert!(cache.get_at("a", Some("brave"), 5_100).is_some());
    assert!(cache.get_at("b", Some("brave"), 5_100).is_some());
    assert!(cache.get_at("c", Some("brave"), 5_100).is_some());
}

#[test]
fn eviction_never_exceeds_capacity() {
    let config = CacheConfig { enabled: true, ttl_seconds: 3600, max_entries: 4 };
    let mut cache = SearchCache::new(config);
    for i in 0..5u64 {
        cache.set_at(&format!("query{}", i), "brave", vec![create_test_result("R")], i);
        assert!(cache.stats().entries <= 4);
    }
    assert!(cache.get_at("query4", Some("brave"), 5).is_some());
}

#[test]
fn overwrite_keeps_one_entry() {
    let mut cache = SearchCache::new(test_config());
    cache.set_at("q", "brave", vec![create_test_result("First")], 0);
    cache.set_at("Q", "brave", vec![create_test_result("Second")], 1);
    assert_eq!(cache.stats().entries, 1);
    assert_eq!(cache.get_at("q", Some("brave"), 2).unwrap().0[0].title, "Second");
}

#[test]
fn stats_text_is_exact() {
    let cache = SearchCache::new(test_config());
    assert_eq!(
        cache.stats().to_string(),
        "Cache Statistics:\n  Enabled: true\n  Entries: 0 / 100\n  TTL: 3600 seconds\n"
    );
}
