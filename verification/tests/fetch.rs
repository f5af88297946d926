use ai_group_chat::fetch::{cache_from_fetches, page_text, status_error, urls_to_fetch, UrlCache};
use ai_group_chat::models::Message;

fn message(sender_type: &str, content: &str) -> Message {
    Message {
        id: "m".to_string(),
        topic_id: "t".to_string(),
        sender_type: sender_type.to_string(),
        sender_bot_id: None,
        content: content.to_string(),
        created_at: "2024-01-01T00:00:00Z".to_string(),
        attachments: Vec::new(),
    }
}

#[test]
fn links_of_human_messages_are_fetched_once() {
    let messages = vec![
        message("human", "See https://a.example/x and https://b.example."),
        message("bot", "Also https://c.example"),
        message("human", "Again https://a.example/x, and https://d.example"),
    ];
    assert_eq!(
        urls_to_fetch(&messages),
        vec!["https://a.example/x", "https://b.example", "https://d.example"]
    );
    assert!(urls_to_fetch(&[message("bot", "https://c.example")]).is_empty());
}

#[test]
fn failed_fetches_are_left_out_of_the_cache() {
    let cache = cache_from_fetches(vec![
        ("https://a.example".to_string(), Ok("A".to_string())),
        ("https://b.example".to_string(), Err("HTTP 404 Not Found fetching https://b.example".to_string())),
    ]);
    assert_eq!(cache.len(), 1);
    assert_eq!(cache.get("https://a.example"), Some("A".to_string()));
    assert_eq!(cache.get("https://b.example"), None);
}

#[test]
fn cache_insert_replaces() {
    let mut cache = UrlCache::new();
    assert!(cache.is_empty());
    cache.insert("u".to_string(), "one".to_string());
    cache.insert("u".to_string(), "two".to_string());
    cache.insert("v".to_string(), "three".to_string());
    assert_eq!(cache.len(), 2);
    assert_eq!(cache.get("u"), Some("two".to_string()));
    assert!(!cache.is_empty());
}

#[test]
fn page_text_renders_html() {
    let text = page_text("https://a.example", b"<html><body><h1>Title</h1><p>Hello there.</p></body></html>").unwrap();
    assert!(text.contains("Title"));
    assert!(text.contains("Hello there."));
    assert!(!text.contains("<p>"));
}

#[test]
fn page_text_keeps_5000_characters() {
    let body = format!("<p>{}</p>", "word ".repeat(2000));
    let text = page_text("https://a.example", body.as_bytes()).unwrap();
    assert!(text.ends_with("...[truncated]"));
    assert_eq!(text.chars().count(), 5000 + "...[truncated]".len());
}

#[test]
fn page_text_refuses_large_bodies() {
    let body = vec![b'a'; 2 * 1024 * 1024 + 1];
    assert_eq!(
        page_text("https://a.example", &body),
        Err("Response too large from https://a.example (2097153 bytes)".to_string())
    );
    let body = vec![b'a'; 2 * 1024 * 1024];
    assert!(page_text("https://a.example", &body).is_ok());
}

#[test]
fn status_errors_name_the_page() {
    assert_eq!(
        status_error("https://a.example", "404 Not Found"),
        "HTTP 404 Not Found fetching https://a.example"
    );
}

#[test]
fn page_text_counts_characters_not_bytes() {
    let body = format!("<p>{}</p>", "é".repeat(3000));
    let text = page_text("https://a.example", body.as_bytes()).unwrap();
    assert!(!text.contains("[truncated]"));
    assert_eq!(text.matches('é').count(), 3000);
}
