use ai_group_chat::urls::{extract_urls, urls_from_matches};

#[test]
fn test_extract_single_url() {
    let urls = extract_urls("Check out https://example.com please");
    assert_eq!(urls, vec!["https://example.com"]);
}

#[test]
fn test_extract_multiple_urls() {
    let urls = extract_urls("See https://a.com and http://b.com/path");
    assert_eq!(urls, vec!["https://a.com", "http://b.com/path"]);
}

#[test]
fn test_extract_urls_deduplication() {
    let urls = extract_urls("https://example.com and again https://example.com");
    assert_eq!(urls, vec!["https://example.com"]);
}

#[test]
fn test_extract_no_urls() {
    let urls = extract_urls("No links here at all");
    assert!(urls.is_empty());
}

#[test]
fn test_extract_urls_trailing_punctuation() {
    let urls = extract_urls("Visit https://example.com. Or https://other.com!");
    assert_eq!(urls, vec!["https://example.com", "https://other.com"]);
}

#[test]
fn test_extract_urls_with_query_params() {
    let urls = extract_urls("See https://example.com/page?q=rust&lang=en#section");
    assert_eq!(urls, vec!["https://example.com/page?q=rust&lang=en#section"]);
}

#[test]
fn test_extract_urls_preserves_balanced_parens() {
    let urls = extract_urls("https://en.wikipedia.org/wiki/Rust_(programming_language)");
    assert_eq!(
        urls,
        vec!["https://en.wikipedia.org/wiki/Rust_(programming_language)"]
    );
}

#[test]
fn extract_urls_strips_unbalanced_closing_parens_and_repeated_punctuation() {
    let urls = extract_urls("(see https://a.com/x).. and https://b.com/y?!, then https://a.com/x");
    assert_eq!(urls, vec!["https://a.com/x", "https://b.com/y"]);
}

#[test]
fn extract_urls_stops_at_excluded_characters() {
    let urls = extract_urls("<https://a.com/p>\"https://b.com\" [http://c.org]{https://d.net}");
    assert_eq!(urls, vec!["https://a.com/p", "https://b.com", "http://c.org", "https://d.net"]);
}

#[test]
fn urls_from_matches_strips_then_dedups_in_first_order() {
    let matches = vec![
        "https://x.com/a.".to_string(),
        "https://y.com:".to_string(),
        "https://x.com/a".to_string(),
        "https://z.com/(q))".to_string(),
    ];
    let urls = urls_from_matches(&matches);
    assert_eq!(urls, vec!["https://x.com/a", "https://y.com", "https://z.com/(q)"]);
}

#[test]
fn urls_from_matches_of_nothing_is_nothing() {
    assert!(urls_from_matches(&Vec::new()).is_empty());
}
