use ai_group_chat::client::{authorization_header, chat_completions_url};

#[test]
fn completions_url_drops_trailing_slashes() {
    assert_eq!(chat_completions_url("https://api.openai.com/v1"), "https://api.openai.com/v1/chat/completions");
    assert_eq!(chat_completions_url("https://api.openai.com/v1///"), "https://api.openai.com/v1/chat/completions");
    assert_eq!(chat_completions_url(""), "/chat/completions");
    assert_eq!(chat_completions_url("http://h/a/b/"), "http://h/a/b/chat/completions");
}

#[test]
fn bearer_header_only_with_a_key() {
    assert_eq!(authorization_header("sk-test"), Some("Bearer sk-test".to_string()));
    assert_eq!(authorization_header(""), None);
}
