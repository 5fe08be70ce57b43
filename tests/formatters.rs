use cli_web_search::output::{MarkdownFormatter, SearchResponse, TextFormatter};
use cli_web_search::results::SearchResult;

fn make_result(title: &str, position: usize) -> SearchResult {
    SearchResult {
        title: title.to_string(),
        url: format!("https://example.com/{}", position),
        snippet: format!("Snippet for {}", title),
        position,
        published_date: None,
        source: None,
    }
}

#[test]
fn test_text_formatter() {
    let response = SearchResponse::new(
        "rust programming".to_string(),
        "brave".to_string(),
        vec![SearchResult {
            title: "The Rust Programming Language".to_string(),
            url: "https://www.rust-lang.org".to_string(),
            snippet: "A language empowering everyone.".to_string(),
            position: 1,
            published_date: None,
            source: None,
        }],
        100,
    );
    let formatter = TextFormatter::new();
    let output = formatter.format(&response);
    assert!(output.contains("Search: \"rust programming\""));
    assert!(output.contains("1 results from brave"));
    assert!(output.contains("1. The Rust Programming Language"));
    assert!(output.contains("https://www.rust-lang.org"));
}

#[test]
fn test_text_formatter_default() {
    let formatter = TextFormatter;
    let response = SearchResponse::new("test".to_string(), "brave".to_string(), vec![], 100);
    let output = formatter.format(&response);
    assert!(output.contains("Search:"));
}

#[test]
fn test_text_empty_results() {
    let response = SearchResponse::new("no results".to_string(), "google".to_string(), vec![], 50);
    let formatter = TextFormatter::new();
    let output = formatter.format(&response);
    assert!(output.contains("No results found."));
}

#[test]
fn test_text_multiple_results() {
    let response = SearchResponse::new(
        "query".to_string(),
        "brave".to_string(),
        vec![
            make_result("First Result", 1),
            make_result("Second Result", 2),
            make_result("Third Result", 3),
        ],
        200,
    );
    let formatter = TextFormatter::new();
    let output = formatter.format(&response);
    assert!(output.contains("1. First Result"));
    assert!(output.contains("2. Second Result"));
    assert!(output.contains("3. Third Result"));
    assert!(output.contains("3 results from brave"));
}

#[test]
fn test_text_header_separator() {
    let response = SearchResponse::new("test".to_string(), "brave".to_string(), vec![], 100);
    let formatter = TextFormatter::new();
    let output = formatter.format(&response);
    assert!(output.contains(&"=".repeat(60)));
}

#[test]
fn test_text_search_time() {
    let response = SearchResponse::new("test".to_string(), "brave".to_string(), vec![], 12345);
    let formatter = TextFormatter::new();
    let output = formatter.format(&response);
    assert!(output.contains("12345ms"));
}

#[test]
fn test_text_url_indentation() {
    let response = SearchResponse::new(
        "query".to_string(),
        "brave".to_string(),
        vec![make_result("Test", 1)],
        100,
    );
    let formatter = TextFormatter::new();
    let output = formatter.format(&response);
    assert!(output.contains("   https://"));
}

#[test]
fn test_markdown_formatter() {
    let response = SearchResponse::new(
        "rust programming".to_string(),
        "brave".to_string(),
        vec![
            SearchResult {
                title: "The Rust Programming Language".to_string(),
                url: "https://www.rust-lang.org".to_string(),
                snippet: "A language empowering everyone to build reliable software.".to_string(),
                position: 1,
                published_date: None,
                source: Some("rust-lang.org".to_string()),
            },
            SearchResult {
                title: "Rust Documentation".to_string(),
                url: "https://doc.rust-lang.org".to_string(),
                snippet: "Official Rust documentation.".to_string(),
                position: 2,
                published_date: None,
                source: None,
            },
        ],
        150,
    );
    let formatter = MarkdownFormatter::new();
    let output = formatter.format(&response);
    assert!(output.contains("# Search Results: rust programming"));
    assert!(output.contains("*Provider: brave | Results: 2 | Time: 150ms*"));
    assert!(output.contains("## 1. The Rust Programming Language"));
    assert!(output.contains("**URL:** https://www.rust-lang.org"));
    assert!(output.contains("**Source:** rust-lang.org"));
}

#[test]
fn test_markdown_empty_results() {
    let response = SearchResponse::new("nonexistent query".to_string(), "google".to_string(), vec![], 50);
    let formatter = MarkdownFormatter::new();
    let output = formatter.format(&response);
    assert!(output.contains("*No results found.*"));
}

#[test]
fn test_markdown_default() {
    let formatter = MarkdownFormatter;
    let response = SearchResponse::new("test".to_string(), "brave".to_string(), vec![], 100);
    let output = formatter.format(&response);
    assert!(output.contains("# Search Results:"));
}

#[test]
fn test_markdown_with_published_date() {
    let response = SearchResponse::new(
        "query".to_string(),
        "brave".to_string(),
        vec![SearchResult {
            title: "Article".to_string(),
            url: "https://example.com".to_string(),
            snippet: "Content".to_string(),
            position: 1,
            published_date: Some("2024-01-15".to_string()),
            source: None,
        }],
        100,
    );
    let formatter = MarkdownFormatter::new();
    let output = formatter.format(&response);
    assert!(output.contains("**Published:** 2024-01-15"));
}

#[test]
fn test_markdown_separators() {
    let response = SearchResponse::new(
        "query".to_string(),
        "brave".to_string(),
        vec![make_result("Result 1", 1), make_result("Result 2", 2)],
        100,
    );
    let formatter = MarkdownFormatter::new();
    let output = formatter.format(&response);
    let separator_count = output.matches("---").count();
    assert!(separator_count >= 2);
}

#[test]
fn test_markdown_result_positions() {
    let response = SearchResponse::new(
        "query".to_string(),
        "brave".to_string(),
        vec![make_result("First", 1), make_result("Second", 2), make_result("Third", 3)],
        100,
    );
    let formatter = MarkdownFormatter::new();
    let output = formatter.format(&response);
    assert!(output.contains("## 1. First"));
    assert!(output.contains("## 2. Second"));
    assert!(output.contains("## 3. Third"));
}

#[test]
fn test_markdown_url_formatting() {
    let response = SearchResponse::new(
        "query".to_string(),
        "brave".to_string(),
        vec![SearchResult {
            title: "Test".to_string(),
            url: "https://example.com/path?query=value".to_string(),
            snippet: "Content".to_string(),
            position: 1,
            published_date: None,
            source: None,
        }],
        100,
    );
    let formatter = MarkdownFormatter::new();
    let output = formatter.format(&response);
    assert!(output.contains("**URL:** https://example.com/path?query=value"));
}

#[test]
fn test_search_response_new() {
    let results = vec![make_result("Test", 1)];
    let response = SearchResponse::new("query".to_string(), "brave".to_string(), results.clone(), 150);
    assert_eq!(response.metadata.query, "query");
    assert_eq!(response.metadata.provider, "brave");
    assert_eq!(response.metadata.total_results, 1);
    assert_eq!(response.metadata.search_time_ms, 150);
    assert_eq!(response.results.len(), 1);
}

#[test]
fn test_search_response_empty_results() {
    let response = SearchResponse::new("empty".to_string(), "tavily".to_string(), vec![], 50);
    assert_eq!(response.metadata.total_results, 0);
    assert!(response.results.is_empty());
}

#[test]
fn test_search_response_debug() {
    let response = SearchResponse::new("test".to_string(), "brave".to_string(), vec![], 100);
    let debug = format!("{:?}", response);
    assert!(debug.contains("SearchResponse"));
    assert!(debug.contains("test"));
}

#[test]
fn response_at_keeps_timestamp() {
    let response = SearchResponse::at("q".to_string(), "p".to_string(), vec![], 1, "2024-01-01T00:00:00Z".to_string());
    assert_eq!(response.metadata.timestamp, "2024-01-01T00:00:00Z");
    assert!(!SearchResponse::new("q".to_string(), "p".to_string(), vec![], 1).metadata.timestamp.is_empty());
}
