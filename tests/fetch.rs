use std::time::Duration;

use cli_web_search::fetch::{decode_html_entities, ContentFormat, FetchOptions};

#[test]
fn test_fetch_options_default() {
    let options = FetchOptions::default();
    assert_eq!(options.timeout, Duration::from_secs(30));
    assert_eq!(options.format, ContentFormat::Text);
    assert!(options.follow_redirects);
}

#[test]
fn test_fetch_options_builder() {
    let options = FetchOptions::new()
        .with_timeout(Duration::from_secs(60))
        .with_format(ContentFormat::Markdown)
        .with_max_length(1000);
    assert_eq!(options.timeout, Duration::from_secs(60));
    assert_eq!(options.format, ContentFormat::Markdown);
    assert_eq!(options.max_length, 1000);
}

#[test]
fn test_decode_html_entities() {
    assert_eq!(decode_html_entities("&amp;"), "&");
    assert_eq!(decode_html_entities("&lt;div&gt;"), "<div>");
    assert_eq!(decode_html_entities("&quot;"), "\"");
    assert_eq!(decode_html_entities("Test &amp; Test"), "Test & Test");
}

#[test]
fn test_content_format_default() {
    assert_eq!(ContentFormat::default(), ContentFormat::Text);
}

#[test]
fn decode_is_applied_in_order() {
    assert_eq!(decode_html_entities("&amp;lt;"), "<");
    assert_eq!(decode_html_entities("a&nbsp;b&mdash;c&hellip;"), "a b\u{2014}c...");
    assert_eq!(decode_html_entities("no entities"), "no entities");
}

#[test]
fn user_agent_names_the_tool() {
    let options = FetchOptions::new();
    assert!(options.user_agent.starts_with("cli-web-search/"));
    assert_eq!(options.max_length, 0);
}

use cli_web_search::fetch::{extract_title, html_to_markdown, html_to_text};

#[test]
fn test_extract_title() {
    assert_eq!(
        extract_title("<html><head><title>Test Page</title></head></html>"),
        Some("Test Page".to_string())
    );
    assert_eq!(
        extract_title("<html><head><title>  Spaced Title  </title></head></html>"),
        Some("Spaced Title".to_string())
    );
    assert_eq!(extract_title("<html><head></head></html>"), None);
    assert_eq!(extract_title("<html><head><title></title></head></html>"), None);
}

#[test]
fn test_extract_title_with_entities() {
    assert_eq!(
        extract_title("<title>Test &amp; Page</title>"),
        Some("Test & Page".to_string())
    );
}

#[test]
fn test_html_to_text() {
    let html = "<html><body><p>Hello <b>World</b>!</p></body></html>";
    let text = html_to_text(html);
    assert!(text.contains("Hello"));
    assert!(text.contains("World"));
    assert!(!text.contains("<p>"));
    assert!(!text.contains("<b>"));
}

#[test]
fn test_html_to_text_strips_scripts() {
    let html = "<html><body><script>alert('hi');</script><p>Content</p></body></html>";
    let text = html_to_text(html);
    assert!(!text.contains("alert"));
    assert!(text.contains("Content"));
}

#[test]
fn test_html_to_text_strips_styles() {
    let html = "<html><head><style>body { color: red; }</style></head><body>Content</body></html>";
    let text = html_to_text(html);
    assert!(!text.contains("color"));
    assert!(text.contains("Content"));
}

#[test]
fn test_html_to_markdown_headings() {
    let html = "<h1>Title</h1><h2>Subtitle</h2><p>Content</p>";
    let md = html_to_markdown(html);
    assert!(md.contains("# Title"));
    assert!(md.contains("## Subtitle"));
}

#[test]
fn test_html_to_markdown_formatting() {
    let html = "<p><strong>Bold</strong> and <em>italic</em></p>";
    let md = html_to_markdown(html);
    assert!(md.contains("**Bold**"));
    assert!(md.contains("*italic*"));
}

#[test]
fn test_html_to_markdown_lists() {
    let html = "<ul><li>Item 1</li><li>Item 2</li></ul>";
    let md = html_to_markdown(html);
    assert!(md.contains("- Item 1"));
    assert!(md.contains("- Item 2"));
}

#[test]
fn html_text_exact_output() {
    assert_eq!(html_to_text("<p>One</p><p>Two &amp; three</p>"), "One\nTwo & three");
    assert_eq!(html_to_text("  a   b  "), "a b");
    assert_eq!(html_to_text("<SCRIPT>x</SCRIPT>y"), "y");
}

#[test]
fn html_markdown_exact_output() {
    assert_eq!(html_to_markdown("<h1>T</h1><p>A</p><p>B</p>"), "# T\n\nA\n\nB");
    assert_eq!(html_to_markdown("<ul><li>a</li><ul><li>b</li></ul></ul>"), "- a\n\n- b");
    assert_eq!(html_to_markdown("<hr>x<br>y"), "---\nx\ny");
}
