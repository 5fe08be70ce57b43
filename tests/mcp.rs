use cli_web_search::error::SearchError;
use cli_web_search::fetch::ContentFormat;
use cli_web_search::fetch::FetchResponse;
use cli_web_search::mcp::{content_format_of, fetch_summary, search_summary, tool_result, McpServer};
use cli_web_search::results::SearchResult;

#[test]
fn test_mcp_server_new() {
    let server = McpServer::new();
    assert_eq!(server.name, "cli-web-search");
    assert!(!server.version.is_empty());
}

#[test]
fn test_mcp_server_default() {
    let server = McpServer::default();
    assert_eq!(server.name, "cli-web-search");
}

#[test]
fn initialize_result_names_server() {
    let server = McpServer::new();
    let r = server.initialize_result();
    assert_eq!(r.protocol_version, "2024-11-05");
    assert!(r.capabilities.tools.is_some());
    assert_eq!(r.server_info.name, "cli-web-search");
}

#[test]
fn tool_results_report_errors() {
    let ok = tool_result(Ok("found".to_string()));
    assert_eq!(ok.content[0].text, "found");
    assert_eq!(ok.content[0].content_type, "text");
    assert!(ok.is_error.is_none());
    let err = tool_result(Err(SearchError::NoProvidersConfigured));
    assert!(err.content[0].text.starts_with("Error: No search providers configured"));
    assert_eq!(err.is_error, Some(true));
}

#[test]
fn content_format_is_read_case_insensitively() {
    assert_eq!(content_format_of(Some("HTML")), ContentFormat::Html);
    assert_eq!(content_format_of(Some("md")), ContentFormat::Markdown);
    assert_eq!(content_format_of(Some("Markdown")), ContentFormat::Markdown);
    assert_eq!(content_format_of(Some("pdf")), ContentFormat::Text);
    assert_eq!(content_format_of(None), ContentFormat::Text);
}

#[test]
fn search_summary_lists_results() {
    let results = vec![
        SearchResult {
            title: "A".to_string(),
            url: "https://a.example".to_string(),
            snippet: String::new(),
            position: 1,
            published_date: None,
            source: None,
        },
        SearchResult {
            title: "B".to_string(),
            url: "https://b.example".to_string(),
            snippet: "about b".to_string(),
            position: 2,
            published_date: None,
            source: None,
        },
    ];
    assert_eq!(
        search_summary("q", "brave", 12, &results),
        "Search results for: \"q\"\nProvider: brave | Results: 2 | Time: 12ms\n\n1. A\n   URL: https://a.example\n   No description available\n\n2. B\n   URL: https://b.example\n   about b\n\n"
    );
}

#[test]
fn fetch_summary_layout() {
    let response = FetchResponse {
        url: "https://x.example".to_string(),
        final_url: "https://x.example/".to_string(),
        status: 200,
        content_type: None,
        content: "body".to_string(),
        content_length: 4,
        title: Some("T".to_string()),
    };
    assert_eq!(fetch_summary(&response), "Title: T\nURL: https://x.example/\nContent Length: 4 bytes\n---\n\nbody");
}
