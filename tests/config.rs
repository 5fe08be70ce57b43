use std::collections::HashMap;

use cli_web_search::config::{
    get_config_value, mask_api_key, set_config_value, BraveConfig, CacheConfig, Config,
    DefaultsConfig, DuckDuckGoConfig, FirecrawlConfig, GoogleConfig, ProvidersConfig,
    SerperConfig, TavilyConfig,
};
use cli_web_search::error::SearchError;

#[test]
fn test_default_config() {
    let config = Config::default();
    assert!(config.default_provider.is_none());
    assert_eq!(config.defaults.num_results, 10);
    assert!(config.cache.enabled);
}

#[test]
fn test_default_config_loading() {
    let config = Config::default();
    assert!(config.default_provider.is_none());
    assert_eq!(config.defaults.num_results, 10);
}

#[test]
fn test_mask_api_key() {
    assert_eq!(mask_api_key("abcd1234efgh5678"), "abcd...5678");
    assert_eq!(mask_api_key("short"), "*****");
}

#[test]
fn test_enabled_providers() {
    let mut config = Config::default();
    config.providers.brave = Some(BraveConfig {
        api_key: "test".to_string(),
        enabled: true,
    });
    config.providers.google = Some(GoogleConfig {
        api_key: "test".to_string(),
        cx: "cx".to_string(),
        enabled: false,
    });
    let enabled = config.enabled_providers();
    assert!(enabled.contains(&"brave".to_string()));
    assert!(!enabled.contains(&"google".to_string()));
}

#[test]
fn test_defaults_config() {
    let defaults = DefaultsConfig::default();
    assert_eq!(defaults.num_results, 10);
    assert_eq!(defaults.safe_search, "moderate");
    assert_eq!(defaults.timeout, 30);
    assert_eq!(defaults.format, "text");
}

#[test]
fn test_cache_config_default() {
    let cache = CacheConfig::default();
    assert!(cache.enabled);
    assert_eq!(cache.ttl_seconds, 3600);
    assert_eq!(cache.max_entries, 1000);
}

#[test]
fn test_providers_config_default() {
    let providers = ProvidersConfig::default();
    assert!(providers.brave.is_none());
    assert!(providers.google.is_none());
    assert!(providers.duckduckgo.is_none());
    assert!(providers.tavily.is_none());
    assert!(providers.serper.is_none());
    assert!(providers.firecrawl.is_none());
}

#[test]
fn test_mask_api_key_edge_cases() {
    assert_eq!(mask_api_key("12345678"), "********");
    assert_eq!(mask_api_key(""), "");
    let long_key = "a".repeat(100);
    let masked = mask_api_key(&long_key);
    assert!(masked.starts_with("aaaa"));
    assert!(masked.ends_with("aaaa"));
    assert!(masked.contains("..."));
}

#[test]
fn test_enabled_providers_all() {
    let mut config = Config::default();
    config.providers.brave = Some(BraveConfig {
        api_key: "key".to_string(),
        enabled: true,
    });
    config.providers.google = Some(GoogleConfig {
        api_key: "key".to_string(),
        cx: "cx".to_string(),
        enabled: true,
    });
    config.providers.duckduckgo = Some(DuckDuckGoConfig { enabled: true });
    config.providers.tavily = Some(TavilyConfig {
        api_key: "key".to_string(),
        enabled: true,
    });
    config.providers.serper = Some(SerperConfig {
        api_key: "key".to_string(),
        enabled: true,
    });
    config.providers.firecrawl = Some(FirecrawlConfig {
        api_key: "key".to_string(),
        enabled: true,
    });
    let enabled = config.enabled_providers();
    assert_eq!(enabled.len(), 6);
    assert!(enabled.contains(&"brave".to_string()));
    assert!(enabled.contains(&"google".to_string()));
    assert!(enabled.contains(&"duckduckgo".to_string()));
    assert!(enabled.contains(&"tavily".to_string()));
    assert!(enabled.contains(&"serper".to_string()));
    assert!(enabled.contains(&"firecrawl".to_string()));
}

#[test]
fn test_to_flat_map() {
    let mut config = Config::default();
    config.providers.brave = Some(BraveConfig {
        api_key: "test-api-key-12345".to_string(),
        enabled: true,
    });
    let map: HashMap<String, String> = config.to_flat_map().into_iter().collect();
    let brave_key = map.get("providers.brave.api_key").unwrap();
    assert!(brave_key.contains("..."));
    assert!(!brave_key.contains("test-api-key-12345"));
    assert_eq!(map.get("providers.brave.enabled").unwrap(), "true");
    assert_eq!(map.get("defaults.num_results").unwrap(), "10");
    assert_eq!(map.get("defaults.safe_search").unwrap(), "moderate");
    assert_eq!(map.get("cache.enabled").unwrap(), "true");
}

#[test]
fn test_fallback_order() {
    let config = Config {
        fallback_order: vec![
            "brave".to_string(),
            "google".to_string(),
            "tavily".to_string(),
        ],
        ..Default::default()
    };
    assert_eq!(config.fallback_order.len(), 3);
    assert_eq!(config.fallback_order[0], "brave");
}

#[test]
fn flat_map_masks_and_formats_exactly() {
    let mut config = Config::default();
    config.default_provider = Some("tavily".to_string());
    config.providers.google = Some(GoogleConfig {
        api_key: "googlekey1234".to_string(),
        cx: "engine".to_string(),
        enabled: false,
    });
    config.cache.ttl_seconds = 90;
    let entries = config.to_flat_map();
    let keys: Vec<&str> = entries.iter().map(|e| e.0.as_str()).collect();
    assert_eq!(
        keys,
        vec![
            "default_provider",
            "providers.google.api_key",
            "providers.google.cx",
            "providers.google.enabled",
            "defaults.num_results",
            "defaults.safe_search",
            "defaults.timeout",
            "defaults.format",
            "cache.enabled",
            "cache.ttl_seconds",
            "cache.max_entries",
        ]
    );
    assert_eq!(entries[1].1, "goog...1234");
    assert_eq!(entries[3].1, "false");
    assert_eq!(entries[9].1, "90");
    assert_eq!(entries[10].1, "1000");
}

#[test]
fn effective_default_provider_rules() {
    let mut config = Config::default();
    assert_eq!(config.effective_default_provider(), None);
    config.providers.brave = Some(BraveConfig { api_key: "k".to_string(), enabled: true });
    config.providers.tavily = Some(TavilyConfig { api_key: "k".to_string(), enabled: true });
    assert_eq!(config.effective_default_provider(), Some("brave".to_string()));
    config.fallback_order = vec!["google".to_string(), "tavily".to_string()];
    assert_eq!(config.effective_default_provider(), Some("tavily".to_string()));
    config.default_provider = Some("brave".to_string());
    assert_eq!(config.effective_default_provider(), Some("brave".to_string()));
    config.default_provider = Some("serper".to_string());
    assert_eq!(config.effective_default_provider(), Some("tavily".to_string()));
}

#[test]
fn set_config_value_updates_fields() {
    let mut config = Config::default();
    set_config_value(&mut config, "providers.brave.api_key", "abc").unwrap();
    let brave = config.providers.brave.clone().unwrap();
    assert_eq!(brave.api_key, "abc");
    assert!(brave.enabled);
    set_config_value(&mut config, "providers.brave.enabled", "false").unwrap();
    assert!(!config.providers.brave.clone().unwrap().enabled);
    set_config_value(&mut config, "providers.brave.enabled", "maybe").unwrap();
    assert!(config.providers.brave.clone().unwrap().enabled);
    set_config_value(&mut config, "providers.tavily.enabled", "true").unwrap();
    assert!(config.providers.tavily.is_none());
    set_config_value(&mut config, "providers.google.cx", "engine").unwrap();
    let google = config.providers.google.clone().unwrap();
    assert_eq!(google.api_key, "");
    assert_eq!(google.cx, "engine");
    set_config_value(&mut config, "defaults.num_results", "+25").unwrap();
    assert_eq!(config.defaults.num_results, 25);
    set_config_value(&mut config, "defaults.timeout", "soon").unwrap();
    assert_eq!(config.defaults.timeout, 30);
    set_config_value(&mut config, "cache.ttl_seconds", "99999999999999999999999").unwrap();
    assert_eq!(config.cache.ttl_seconds, 3600);
    set_config_value(&mut config, "cache.max_entries", "7").unwrap();
    assert_eq!(config.cache.max_entries, 7);
    set_config_value(&mut config, "default_provider", "serper").unwrap();
    assert_eq!(config.default_provider, Some("serper".to_string()));
}

#[test]
fn set_config_value_rejects_unknown_key() {
    let mut config = Config::default();
    match set_config_value(&mut config, "providers.brave", "x") {
        Err(SearchError::Config(m)) => assert_eq!(m, "Unknown configuration key: providers.brave"),
        other => panic!("unexpected {:?}", other),
    }
    assert!(config.providers.brave.is_none());
}

#[test]
fn get_config_value_reads_flat_entries() {
    let mut config = Config::default();
    set_config_value(&mut config, "providers.serper.api_key", "serperkey99").unwrap();
    assert_eq!(get_config_value(&config, "providers.serper.api_key"), Some("serp...ey99".to_string()));
    assert_eq!(get_config_value(&config, "defaults.format"), Some("text".to_string()));
    assert_eq!(get_config_value(&config, "nothing.here"), None);
}

#[test]
fn test_config_path() {
    let path = cli_web_search::locations::config_path();
    assert!(path.is_ok());
}

#[test]
fn config_path_ends_with_file_name() {
    let path = cli_web_search::locations::config_path().unwrap();
    assert!(path.ends_with("config.yaml"));
    assert!(path.starts_with(&cli_web_search::locations::config_dir().unwrap()));
}

#[test]
fn mask_counts_bytes() {
    assert_eq!(mask_api_key("\u{e9}\u{e9}\u{e9}\u{e9}\u{e9}"), "\u{e9}\u{e9}...\u{e9}\u{e9}");
    assert_eq!(mask_api_key("abcde\u{e9}"), "*******");
    assert_eq!(mask_api_key("abc\u{e9}12345"), "abc...2345");
}
