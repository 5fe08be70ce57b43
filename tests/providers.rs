use std::time::Duration;

use cli_web_search::cli::{DateRange, SafeSearch};
use cli_web_search::config::{BraveConfig, Config, DuckDuckGoConfig, GoogleConfig};
use cli_web_search::error::SearchError;
use cli_web_search::providers::{build_registry, ProviderRegistry, ProviderStatus, SearchOptions};
use cli_web_search::search::{retry_delay_ms, SearchStep};
use cli_web_search::results::SearchResult;

fn status(name: &str, configured: bool) -> ProviderStatus {
    ProviderStatus { name: name.to_string(), configured }
}

fn names(registry: &ProviderRegistry, order: &[usize]) -> Vec<String> {
    let list = registry.list_providers();
    order.iter().map(|i| list[*i].name.clone()).collect()
}

fn hit(title: &str) -> SearchResult {
    SearchResult {
        title: title.to_string(),
        url: "https://example.com".to_string(),
        snippet: String::new(),
        position: 1,
        published_date: None,
        source: None,
    }
}

/// Runs a search against scripted provider outcomes; returns the outcome,
/// the providers called in order, and the delays asked for.
fn drive(
    registry: &ProviderRegistry,
    preferred: Option<&str>,
    mut respond: impl FnMut(&str) -> Result<Vec<SearchResult>, SearchError>,
) -> (Result<(Vec<SearchResult>, String), SearchError>, Vec<String>, Vec<u128>) {
    let mut calls = Vec::new();
    let mut delays = Vec::new();
    let mut search = match registry.begin_search(preferred) {
        Ok(s) => s,
        Err(e) => return (Err(e), calls, delays),
    };
    loop {
        let name = search.provider_name().to_string();
        calls.push(name.clone());
        match search.on_outcome(respond(&name)) {
            SearchStep::Retry { delay_ms } => delays.push(delay_ms),
            SearchStep::Next => {}
            SearchStep::Done(r) => return (r, calls, delays),
        }
    }
}

#[test]
fn test_search_options_builder() {
    let options = SearchOptions::new()
        .with_num_results(5)
        .with_safe_search(SafeSearch::Strict);
    assert_eq!(options.num_results, 5);
    assert_eq!(options.safe_search, SafeSearch::Strict);
}

#[test]
fn test_search_options_defaults() {
    let options = SearchOptions::new();
    assert_eq!(options.num_results, 10);
    assert_eq!(options.safe_search, SafeSearch::Moderate);
    assert!(options.date_range.is_none());
    assert!(options.include_domains.is_none());
    assert!(options.exclude_domains.is_none());
    assert_eq!(options.timeout, Duration::from_secs(30));
}

#[test]
fn test_search_options_with_date_range() {
    let options = SearchOptions::new().with_date_range(Some(DateRange::Week));
    assert_eq!(options.date_range, Some(DateRange::Week));
}

#[test]
fn test_search_options_with_timeout() {
    let options = SearchOptions::new().with_timeout(Duration::from_secs(60));
    assert_eq!(options.timeout, Duration::from_secs(60));
}

#[test]
fn test_provider_registry_new() {
    let registry = ProviderRegistry::new();
    assert_eq!(registry.len(), 0);
    assert!(registry.list_providers().is_empty());
    assert!(registry.fallback_order().is_empty());
}

#[test]
fn test_provider_registry_register() {
    let mut registry = ProviderRegistry::new();
    registry.register(status("brave", true));
    assert_eq!(registry.len(), 1);
}

#[test]
fn test_provider_registry_get() {
    let mut registry = ProviderRegistry::new();
    registry.register(status("brave", true));
    let provider = registry.get("brave");
    assert!(provider.is_some());
    assert_eq!(registry.list_providers()[provider.unwrap()].name, "brave");
    let missing = registry.get("nonexistent");
    assert!(missing.is_none());
}

#[test]
fn test_provider_registry_configured_providers() {
    let mut registry = ProviderRegistry::new();
    registry.register(status("brave", true));
    registry.register(status("brave", false));
    let configured = registry.configured_providers();
    assert_eq!(configured.len(), 1);
}

#[test]
fn test_provider_registry_list_providers() {
    let mut registry = ProviderRegistry::new();
    registry.register(status("brave", true));
    registry.register(status("tavily", false));
    let list = registry.list_providers();
    assert_eq!(list.len(), 2);
    let brave_status = list.iter().find(|s| s.name == "brave").unwrap();
    assert!(brave_status.configured);
    let tavily_status = list.iter().find(|s| s.name == "tavily").unwrap();
    assert!(!tavily_status.configured);
}

#[test]
fn test_provider_registry_fallback_order() {
    let mut registry = ProviderRegistry::new();
    registry.register(status("brave", true));
    registry.register(status("tavily", true));
    registry.register(status("google", true));
    registry.set_fallback_order(vec![
        "tavily".to_string(),
        "brave".to_string(),
        "google".to_string(),
    ]);
    let providers = registry.providers_in_order();
    assert_eq!(providers.len(), 3);
    assert_eq!(names(&registry, &providers), vec!["tavily", "brave", "google"]);
}

#[test]
fn test_provider_registry_providers_in_order_with_unconfigured() {
    let mut registry = ProviderRegistry::new();
    registry.register(status("brave", true));
    registry.register(status("tavily", false));
    registry.set_fallback_order(vec!["tavily".to_string(), "brave".to_string()]);
    let providers = registry.providers_in_order();
    assert_eq!(providers.len(), 1);
    assert_eq!(names(&registry, &providers), vec!["brave"]);
}

#[test]
fn test_provider_status_debug() {
    let status = ProviderStatus {
        name: "brave".to_string(),
        configured: true,
    };
    let debug_str = format!("{:?}", status);
    assert!(debug_str.contains("brave"));
    assert!(debug_str.contains("true"));
}

fn three_providers() -> ProviderRegistry {
    let mut registry = ProviderRegistry::new();
    registry.register(status("A", true));
    registry.register(status("B", false));
    registry.register(status("C", true));
    registry.set_fallback_order(vec!["C".to_string(), "A".to_string()]);
    registry
}

#[test]
fn order_follows_fallback_and_skips_unconfigured() {
    let registry = three_providers();
    assert_eq!(names(&registry, &registry.providers_in_order()), vec!["C", "A"]);
}

#[test]
fn order_appends_remaining_and_drops_duplicates() {
    let mut registry = ProviderRegistry::new();
    registry.register(status("x", true));
    registry.register(status("y", true));
    registry.register(status("x", true));
    registry.register(status("z", true));
    registry.set_fallback_order(vec!["z".to_string(), "z".to_string(), "missing".to_string()]);
    assert_eq!(names(&registry, &registry.providers_in_order()), vec!["z", "x", "y"]);
}

#[test]
fn preferred_provider_is_tried_first() {
    let registry = three_providers();
    let (r, calls, _) = drive(&registry, Some("A"), |_| Ok(vec![hit("first")]));
    assert_eq!(calls, vec!["A"]);
    assert_eq!(r.unwrap().1, "A");
    let (_, calls, _) = drive(&registry, Some("B"), |_| Ok(vec![hit("first")]));
    assert_eq!(calls, vec!["C"]);
}

#[test]
fn rate_limit_falls_through_to_next_provider() {
    let registry = three_providers();
    let (r, calls, delays) = drive(&registry, None, |name| {
        if name == "C" {
            Err(SearchError::rate_limited("C", None))
        } else {
            Ok(vec![hit("from A")])
        }
    });
    assert_eq!(calls, vec!["C", "C", "C", "A"]);
    assert_eq!(delays, vec![500, 1000]);
    let (results, provider) = r.unwrap();
    assert_eq!(provider, "A");
    assert_eq!(results[0].title, "from A");
}

#[test]
fn config_error_aborts_the_search() {
    let registry = three_providers();
    let (r, calls, delays) = drive(&registry, None, |_| Err(SearchError::Config("broken".to_string())));
    assert_eq!(calls, vec!["C"]);
    assert!(delays.is_empty());
    match r {
        Err(SearchError::Config(m)) => assert_eq!(m, "broken"),
        other => panic!("unexpected {:?}", other),
    }
}

#[test]
fn timeout_is_not_continued() {
    let registry = three_providers();
    let (r, calls, _) = drive(&registry, None, |_| Err(SearchError::Timeout(5)));
    assert_eq!(calls, vec!["C"]);
    assert!(matches!(r, Err(SearchError::Timeout(5))));
}

#[test]
fn exhaustion_reports_last_message() {
    let registry = three_providers();
    let (r, calls, _) = drive(&registry, None, |name| Err(SearchError::api(name, "boom")));
    assert_eq!(calls, vec!["C", "A"]);
    match r {
        Err(SearchError::AllProvidersFailed(m)) => assert_eq!(m, "API error from A: boom"),
        other => panic!("unexpected {:?}", other),
    }
}

#[test]
fn no_candidates_fails_without_attempts() {
    let mut registry = ProviderRegistry::new();
    registry.register(status("A", false));
    let mut called = false;
    let (r, calls, _) = drive(&registry, None, |_| {
        called = true;
        Ok(vec![])
    });
    assert!(calls.is_empty());
    assert!(!called);
    assert!(matches!(r, Err(SearchError::NoProvidersConfigured)));
}

#[test]
fn retry_backoff_doubles() {
    let mut registry = ProviderRegistry::new();
    registry.register(status("A", true));
    let mut failures = 0;
    let (r, calls, delays) = drive(&registry, None, |_| {
        if failures < 2 {
            failures += 1;
            Err(SearchError::Network("reset".to_string()))
        } else {
            Ok(vec![hit("ok")])
        }
    });
    assert_eq!(calls.len(), 3);
    assert_eq!(delays.len(), 2);
    assert!(delays[1] >= 2 * delays[0]);
    assert_eq!(r.unwrap().0[0].title, "ok");
}

#[test]
fn retry_after_hint_is_used() {
    assert_eq!(retry_delay_ms(&SearchError::rate_limited("A", Some(7)), 0), 7000);
    assert_eq!(retry_delay_ms(&SearchError::rate_limited("A", None), 1), 1000);
    assert_eq!(retry_delay_ms(&SearchError::Network("x".to_string()), 2), 2000);
}

#[test]
fn invalid_key_is_not_retried_but_ends_search() {
    let registry = three_providers();
    let (r, calls, _) = drive(&registry, None, |_| Err(SearchError::invalid_api_key("C")));
    assert_eq!(calls, vec!["C"]);
    assert!(matches!(r, Err(SearchError::InvalidApiKey { .. })));
}

#[test]
fn registry_from_config() {
    let mut config = Config::default();
    config.providers.brave = Some(BraveConfig { api_key: String::new(), enabled: true });
    config.providers.google = Some(GoogleConfig { api_key: "k".to_string(), cx: "c".to_string(), enabled: true });
    config.providers.duckduckgo = Some(DuckDuckGoConfig { enabled: false });
    config.fallback_order = vec!["google".to_string()];
    let registry = build_registry(&config);
    let list = registry.list_providers();
    assert_eq!(list.len(), 2);
    assert_eq!((list[0].name.as_str(), list[0].configured), ("brave", false));
    assert_eq!((list[1].name.as_str(), list[1].configured), ("google", true));
    assert_eq!(registry.fallback_order(), &vec!["google".to_string()]);
}
