use cli_web_search::adapters::{
    bing, brave_freshness, google_date_restrict, google_safe, safe_search_word, serpapi, serper, status_error,
};
use cli_web_search::cli::{DateRange, SafeSearch};
use cli_web_search::error::SearchError;

#[test]
fn bing_test_extract_domain() {
    assert_eq!(bing::extract_domain("example.com/path/page"), "example.com");
    assert_eq!(bing::extract_domain("www.example.org/test"), "www.example.org");
    assert_eq!(bing::extract_domain("simple.com"), "simple.com");
}

#[test]
fn bing_test_extract_domain_empty() {
    assert_eq!(bing::extract_domain(""), "");
}

#[test]
fn test_extract_domain_no_path() {
    assert_eq!(bing::extract_domain("example.com"), "example.com");
}

#[test]
fn serpapi_test_extract_domain() {
    assert_eq!(
        serpapi::extract_domain("https://example.com \u{203a} path \u{203a} page"),
        "example.com"
    );
    assert_eq!(serpapi::extract_domain("http://simple.com"), "simple.com");
    assert_eq!(serpapi::extract_domain("example.org \u{203a} test"), "example.org");
}

#[test]
fn test_extract_domain_no_separator() {
    assert_eq!(serpapi::extract_domain("example.com"), "example.com");
}

#[test]
fn serpapi_test_extract_domain_empty() {
    assert_eq!(serpapi::extract_domain(""), "");
}

#[test]
fn serper_test_extract_domain() {
    assert_eq!(
        serper::extract_domain(&Some("example.com \u{203a} path \u{203a} page".to_string())),
        Some("example.com".to_string())
    );
    assert_eq!(
        serper::extract_domain(&Some("simple.com".to_string())),
        Some("simple.com".to_string())
    );
    assert_eq!(serper::extract_domain(&None), None);
}

#[test]
fn serpapi_strips_every_scheme_prefix() {
    assert_eq!(serpapi::extract_domain("https://a.com/https://b"), "a.com/b");
}

#[test]
fn status_codes_map_to_errors() {
    assert!(status_error("brave", 200, "200 OK", None, "").is_none());
    assert!(matches!(
        status_error("brave", 429, "429 Too Many Requests", Some(5), ""),
        Some(SearchError::RateLimited { retry_after: Some(5), .. })
    ));
    assert!(matches!(status_error("brave", 403, "403 Forbidden", None, ""), Some(SearchError::InvalidApiKey { .. })));
    match status_error("brave", 500, "500 Internal Server Error", None, "oops") {
        Some(SearchError::Api { provider, message }) => {
            assert_eq!(provider, "brave");
            assert_eq!(message, "HTTP 500 Internal Server Error: oops");
        }
        other => panic!("unexpected {:?}", other),
    }
}

#[test]
fn request_parameter_words() {
    assert_eq!(safe_search_word(SafeSearch::Strict), "strict");
    assert_eq!(brave_freshness(DateRange::Week), "pw");
    assert_eq!(google_date_restrict(DateRange::Year), "y1");
    assert_eq!(google_safe(SafeSearch::Moderate), "active");
    assert_eq!(google_safe(SafeSearch::Off), "off");
}
