use cli_web_search::cli::{DateRange, FetchFormat, OutputFormat, Provider, SafeSearch};

#[test]
fn test_provider_display() {
    assert_eq!(Provider::Brave.to_string(), "brave");
    assert_eq!(Provider::Google.to_string(), "google");
    assert_eq!(Provider::DuckDuckGo.to_string(), "duckduckgo");
    assert_eq!(Provider::Tavily.to_string(), "tavily");
    assert_eq!(Provider::Serper.to_string(), "serper");
    assert_eq!(Provider::Firecrawl.to_string(), "firecrawl");
    assert_eq!(Provider::SerpApi.to_string(), "serpapi");
    assert_eq!(Provider::Bing.to_string(), "bing");
}

#[test]
fn test_output_format_default() {
    let format = OutputFormat::default();
    assert_eq!(format, OutputFormat::Text);
}

#[test]
fn test_safe_search_default() {
    let safe = SafeSearch::default();
    assert_eq!(safe, SafeSearch::Moderate);
}

#[test]
fn test_date_range_equality() {
    assert_eq!(DateRange::Day, DateRange::Day);
    assert_ne!(DateRange::Day, DateRange::Week);
}

#[test]
fn test_fetch_format_default() {
    let format = FetchFormat::default();
    assert_eq!(format, FetchFormat::Text);
}
