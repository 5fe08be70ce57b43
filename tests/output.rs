use cli_web_search::output::{truncate_snippet, JsonFormatter};

#[test]
fn test_truncate_snippet() {
    let long_text = "This is a very long snippet that should be truncated to fit within the specified maximum length for better readability in the terminal output.";
    let truncated = truncate_snippet(long_text, 50);
    assert!(truncated.len() <= 53);
    assert!(truncated.ends_with("..."));
}

#[test]
fn test_truncate_short_snippet() {
    let short_text = "Short snippet";
    let result = truncate_snippet(short_text, 50);
    assert_eq!(result, "Short snippet");
    assert!(!result.ends_with("..."));
}

#[test]
fn test_truncate_whitespace_cleanup() {
    let messy_text = "This   has   extra   spaces   and\n\nnewlines";
    let result = truncate_snippet(messy_text, 100);
    assert!(!result.contains("   "));
    assert!(!result.contains('\n'));
}

#[test]
fn test_truncate_exact_length() {
    let text = "Exactly fifty characters long text for testing!!";
    let result = truncate_snippet(text, 48);
    assert_eq!(result, text);
}

#[test]
fn truncation_cuts_at_last_space() {
    assert_eq!(truncate_snippet("  alpha beta gamma ", 12), "alpha beta...");
    assert_eq!(truncate_snippet("alpha beta gamma", 8), "alpha...");
    assert_eq!(truncate_snippet("abcdefghij", 4), "abcd...");
    assert_eq!(truncate_snippet("", 4), "");
}

#[test]
fn json_formatter_modes() {
    assert!(JsonFormatter::new().pretty);
    assert!(!JsonFormatter::compact().pretty);
}

use cli_web_search::output::{format_markdown, format_text};
use cli_web_search::results::SearchResult;

fn create_test_result(title: &str, position: usize) -> SearchResult {
    SearchResult {
        title: title.to_string(),
        url: format!("https://example.com/{}", position),
        snippet: format!("Snippet for {}", title),
        position,
        published_date: None,
        source: None,
    }
}

#[test]
fn text_report_layout() {
    let out = format_text("rust", "brave", 1, 42, &vec![create_test_result("The Rust Programming Language", 1)]);
    assert!(out.contains("Search: \"rust\" (1 results from brave in 42ms)"));
    assert!(out.contains(&"=".repeat(60)));
    assert!(out.contains("1. The Rust Programming Language\n   https://example.com/1\n   Snippet for The Rust Programming Language\n\n"));
    let empty = format_text("q", "brave", 0, 0, &vec![]);
    assert!(empty.ends_with("No results found.\n"));
}

#[test]
fn markdown_report_layout() {
    let mut r = create_test_result("Title", 2);
    r.source = Some("example.com".to_string());
    r.published_date = Some("2024-01-01".to_string());
    let out = format_markdown("q", "tavily", 1, 7, &vec![r]);
    assert_eq!(
        out,
        "# Search Results: q\n\n*Provider: tavily | Results: 1 | Time: 7ms*\n\n---\n\n## 2. Title\n\n**URL:** https://example.com/2\n\n**Source:** example.com\n\n**Published:** 2024-01-01\n\nSnippet for Title\n\n---\n\n"
    );
    assert!(format_markdown("q", "p", 0, 0, &vec![]).ends_with("*No results found.*\n"));
}

#[test]
fn truncation_counts_bytes() {
    assert_eq!(truncate_snippet("\u{e9}\u{e9}\u{e9}", 4), "\u{e9}\u{e9}...");
    assert_eq!(truncate_snippet("\u{e9}\u{e9}\u{e9}", 6), "\u{e9}\u{e9}\u{e9}");
    assert_eq!(truncate_snippet("\u{e9}\u{e9}\u{e9}", 3), "\u{e9}...");
}
