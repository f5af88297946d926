use ai_group_chat::chat::build_chat_messages;
use ai_group_chat::client::{ChatContent, ContentPart};
use ai_group_chat::fetch::UrlCache;
use ai_group_chat::models::{Attachment, Bot, Message};

fn make_test_bot(supports_vision: bool, system_prompt: &str) -> Bot {
    Bot {
        id: "bot-1".to_string(),
        name: "TestBot".to_string(),
        avatar_color: "#6366f1".to_string(),
        base_url: "https://api.openai.com/v1".to_string(),
        api_key: "sk-test".to_string(),
        model: "gpt-4".to_string(),
        system_prompt: system_prompt.to_string(),
        supports_vision,
        created_at: "2024-01-01T00:00:00Z".to_string(),
    }
}

fn make_human_message(content: &str) -> Message {
    Message {
        id: "msg-h1".to_string(),
        topic_id: "topic-1".to_string(),
        sender_type: "human".to_string(),
        sender_bot_id: None,
        content: content.to_string(),
        created_at: "2024-01-01T00:00:00Z".to_string(),
        attachments: Vec::new(),
    }
}

fn make_bot_message(content: &str, bot_id: &str) -> Message {
    Message {
        id: "msg-b1".to_string(),
        topic_id: "topic-1".to_string(),
        sender_type: "bot".to_string(),
        sender_bot_id: Some(bot_id.to_string()),
        content: content.to_string(),
        created_at: "2024-01-01T00:01:00Z".to_string(),
        attachments: Vec::new(),
    }
}

fn attachment(id: &str, message_id: &str, name: &str, file_type: &str, mime: &str) -> Attachment {
    Attachment {
        id: id.to_string(),
        message_id: message_id.to_string(),
        file_name: name.to_string(),
        file_path: format!("/attachments/{}", name),
        file_type: file_type.to_string(),
        mime_type: mime.to_string(),
        created_at: "2024-01-01T00:00:00Z".to_string(),
    }
}

fn text_of(content: &ChatContent) -> &str {
    match content {
        ChatContent::Text(t) => t,
        _ => panic!("Expected text content"),
    }
}

#[test]
fn test_build_messages_with_system_prompt() {
    let bot = make_test_bot(false, "You are a helpful assistant.");
    let messages = vec![make_human_message("Hello!")];

    let result = build_chat_messages(&messages, &bot, &[bot.clone()], &UrlCache::new(), &[]);

    assert_eq!(result.len(), 2);
    assert_eq!(result[0].role, "system");
    match &result[0].content {
        ChatContent::Text(t) => assert!(t.starts_with("You are a helpful assistant.")),
        _ => panic!("Expected text content for system message"),
    }
    assert_eq!(result[1].role, "user");
}

#[test]
fn test_build_messages_without_system_prompt() {
    let bot = make_test_bot(false, "");
    let messages = vec![make_human_message("Hello!")];

    let result = build_chat_messages(&messages, &bot, &[bot.clone()], &UrlCache::new(), &[]);

    assert_eq!(result.len(), 1);
    assert_eq!(result[0].role, "user");
}

#[test]
fn test_build_messages_mixed_history() {
    let bot = make_test_bot(false, "");
    let bot2 = Bot {
        id: "bot-2".to_string(),
        name: "OtherBot".to_string(),
        ..make_test_bot(false, "")
    };
    let all_bots = vec![bot.clone(), bot2];
    let messages = vec![
        make_human_message("Hello!"),
        make_bot_message("Hi there!", "bot-1"),
        make_human_message("How are you?"),
        make_bot_message("I'm doing well!", "bot-2"),
    ];

    let result = build_chat_messages(&messages, &bot, &all_bots, &UrlCache::new(), &[]);

    assert_eq!(result[0].role, "system");
    assert_eq!(result[1].role, "user");
    assert_eq!(result[2].role, "assistant");
    assert_eq!(result[3].role, "user");
    assert_eq!(result[4].role, "user");

    match &result[2].content {
        ChatContent::Text(t) => assert_eq!(t, "Hi there!"),
        _ => panic!("Expected text"),
    }
    match &result[4].content {
        ChatContent::Text(t) => assert!(t.starts_with("[OtherBot]: ")),
        _ => panic!("Expected text"),
    }
}

#[test]
fn test_build_messages_image_vision_bot() {
    let bot = make_test_bot(true, "");
    let mut msg = make_human_message("Look at this!");
    msg.attachments.push(attachment("att-1", "msg-h1", "test.png", "image", "image/png"));
    let data = vec![vec![Some(b"fake-png-data".to_vec())]];

    let result = build_chat_messages(&[msg], &bot, &[bot.clone()], &UrlCache::new(), &data);

    assert_eq!(result.len(), 1);
    assert_eq!(result[0].role, "user");
    match &result[0].content {
        ChatContent::Parts(parts) => {
            assert_eq!(parts.len(), 2);
            match &parts[0] {
                ContentPart::Text { text } => assert_eq!(text, "Look at this!"),
                _ => panic!("Expected text part first"),
            }
            match &parts[1] {
                ContentPart::ImageUrl { image_url } => {
                    assert!(image_url.url.starts_with("data:image/png;base64,"));
                    assert_eq!(image_url.url, "data:image/png;base64,ZmFrZS1wbmctZGF0YQ==");
                }
                _ => panic!("Expected image_url part"),
            }
        }
        _ => panic!("Expected Parts content for vision bot with image"),
    }
}

#[test]
fn test_build_messages_image_non_vision_bot() {
    let bot = make_test_bot(false, "");
    let mut msg = make_human_message("Check this photo");
    msg.attachments.push(attachment("att-2", "msg-h1", "photo.jpg", "image", "image/jpeg"));
    let data = vec![vec![Some(b"fake-jpg-data".to_vec())]];

    let result = build_chat_messages(&[msg], &bot, &[bot.clone()], &UrlCache::new(), &data);

    assert_eq!(result.len(), 1);
    assert_eq!(result[0].role, "user");
    let t = text_of(&result[0].content);
    assert!(t.contains("Check this photo"));
    assert!(t.contains("[Image attached: photo.jpg]"));
}

#[test]
fn test_build_messages_file_attachment() {
    let bot = make_test_bot(false, "");
    let mut msg = make_human_message("Review this code");
    msg.attachments.push(attachment("att-3", "msg-h1", "code.py", "file", "text/x-python"));
    let data = vec![vec![Some(b"print('hello world')".to_vec())]];

    let result = build_chat_messages(&[msg], &bot, &[bot.clone()], &UrlCache::new(), &data);

    assert_eq!(result.len(), 1);
    assert_eq!(result[0].role, "user");
    let t = text_of(&result[0].content);
    assert!(t.contains("Review this code"));
    assert!(t.contains("[File: code.py]"));
    assert!(t.contains("print('hello world')"));
    assert_eq!(t, "Review this code\n\n[File: code.py]\n```\nprint('hello world')\n```");
}

#[test]
fn test_build_messages_mixed_attachments_vision() {
    let bot = make_test_bot(true, "Helper");
    let mut msg = make_human_message("Explain this");
    msg.attachments.push(attachment("att-img", "msg-h1", "diagram.png", "image", "image/png"));
    msg.attachments.push(attachment("att-file", "msg-h1", "notes.txt", "file", "text/plain"));
    let data = vec![vec![Some(b"png-data".to_vec()), Some(b"Some notes here".to_vec())]];

    let result = build_chat_messages(&[msg], &bot, &[bot.clone()], &UrlCache::new(), &data);

    assert_eq!(result.len(), 2);
    assert_eq!(result[0].role, "system");
    assert_eq!(result[1].role, "user");
    match &result[1].content {
        ChatContent::Parts(parts) => {
            assert!(parts.len() >= 2);
            match &parts[0] {
                ContentPart::Text { text } => {
                    assert!(text.contains("Explain this"));
                    assert!(text.contains("[File: notes.txt]"));
                    assert!(text.contains("Some notes here"));
                }
                _ => panic!("Expected text part first"),
            }
            let has_image = parts.iter().any(|p| matches!(p, ContentPart::ImageUrl { .. }));
            assert!(has_image, "Should have image_url part for vision bot");
        }
        _ => panic!("Expected Parts content for vision bot with images"),
    }
}

#[test]
fn test_build_messages_with_url_cache() {
    let bot = make_test_bot(false, "");
    let messages = vec![make_human_message("What does https://example.com say?")];

    let mut url_cache = UrlCache::new();
    url_cache.insert(
        "https://example.com".to_string(),
        "Example Domain\nThis domain is for use in examples.".to_string(),
    );

    let result = build_chat_messages(&messages, &bot, &[bot.clone()], &url_cache, &[]);

    assert_eq!(result.len(), 1);
    assert_eq!(result[0].role, "user");
    let t = text_of(&result[0].content);
    assert!(t.contains("What does https://example.com say?"));
    assert!(t.contains("[Content from https://example.com]:"));
    assert!(t.contains("Example Domain"));
}

#[test]
fn test_build_messages_url_cache_not_applied_to_bot_messages() {
    let bot = make_test_bot(false, "");
    let messages = vec![
        make_human_message("Check https://example.com"),
        make_bot_message("Here's what https://example.com says...", "bot-1"),
    ];

    let mut url_cache = UrlCache::new();
    url_cache.insert("https://example.com".to_string(), "Fetched content here".to_string());

    let result = build_chat_messages(&messages, &bot, &[bot.clone()], &url_cache, &[]);

    assert_eq!(result.len(), 2);
    assert!(text_of(&result[0].content).contains("[Content from https://example.com]:"));
    let t = text_of(&result[1].content);
    assert!(!t.contains("[Content from"));
    assert_eq!(t, "Here's what https://example.com says...");
}

#[test]
fn test_build_messages_empty_url_cache() {
    let bot = make_test_bot(false, "");
    let messages = vec![make_human_message("Check https://example.com")];

    let result = build_chat_messages(&messages, &bot, &[bot.clone()], &UrlCache::new(), &[]);

    assert_eq!(result.len(), 1);
    assert_eq!(text_of(&result[0].content), "Check https://example.com");
}

#[test]
fn group_context_names_the_other_bots() {
    let bot = make_test_bot(false, "Be brief.");
    let other = Bot { id: "bot-2".to_string(), name: "Ada".to_string(), ..make_test_bot(false, "") };
    let third = Bot { id: "bot-3".to_string(), name: "Lin".to_string(), ..make_test_bot(false, "") };
    let result = build_chat_messages(
        &[make_human_message("Hi")],
        &bot,
        &[bot.clone(), other, third],
        &UrlCache::new(),
        &[],
    );
    assert_eq!(
        text_of(&result[0].content),
        "Be brief.\n\nYou are in a group chat with a human user and other AI assistants: Ada, Lin. \
Messages from other AIs are prefixed with their name in brackets like [Name]: . \
You can see and respond to what they say. Be collaborative and refer to them by name when relevant."
    );
}

#[test]
fn unknown_sender_bot_is_called_bot() {
    let bot = make_test_bot(false, "");
    let result = build_chat_messages(
        &[make_bot_message("Hello", "bot-9")],
        &bot,
        &[bot.clone()],
        &UrlCache::new(),
        &[],
    );
    assert_eq!(result[0].role, "user");
    assert_eq!(text_of(&result[0].content), "[Bot]: Hello");
}

#[test]
fn unreadable_files_are_noted() {
    let bot = make_test_bot(true, "");
    let mut msg = make_human_message("Files");
    msg.attachments.push(attachment("a1", "msg-h1", "gone.png", "image", "image/png"));
    msg.attachments.push(attachment("a2", "msg-h1", "gone.txt", "file", "text/plain"));
    msg.attachments.push(attachment("a3", "msg-h1", "blob.bin", "file", "application/octet-stream"));
    let data = vec![vec![None, None, Some(vec![0xff, 0xfe, 0x00])]];
    let result = build_chat_messages(&[msg], &bot, &[bot.clone()], &UrlCache::new(), &data);
    assert_eq!(
        text_of(&result[0].content),
        "Files\n\n[Image attached: gone.png]\n\n[File attached: gone.txt]\n\n[File attached: blob.bin (3 bytes)]"
    );
}

#[test]
fn html_files_are_converted_to_text() {
    let bot = make_test_bot(false, "");
    let mut msg = make_human_message("Page");
    msg.attachments.push(attachment("a1", "msg-h1", "page.html", "file", "text/html"));
    let data = vec![vec![Some(b"<p>Hello <b>world</b></p>".to_vec())]];
    let result = build_chat_messages(&[msg], &bot, &[bot.clone()], &UrlCache::new(), &data);
    let t = text_of(&result[0].content);
    assert!(t.starts_with("Page\n\n[File: page.html (HTML converted to text)]\n"));
    assert!(t.contains("Hello"));
    assert!(t.contains("world"));
}

#[test]
fn long_files_are_truncated() {
    let bot = make_test_bot(false, "");
    let mut msg = make_human_message("Long");
    msg.attachments.push(attachment("a1", "msg-h1", "long.txt", "file", "text/plain"));
    let data = vec![vec![Some(vec![b'x'; 15001])]];
    let result = build_chat_messages(&[msg], &bot, &[bot.clone()], &UrlCache::new(), &data);
    let t = text_of(&result[0].content);
    let expected = format!(
        "Long\n\n[File: long.txt]\n```\n{}...\n[Content truncated — showing first 15000 characters]\n```",
        "x".repeat(15000)
    );
    assert_eq!(t, expected);
}
