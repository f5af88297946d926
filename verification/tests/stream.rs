use ai_group_chat::stream::{classify_line, SseDecoder, SseLine, StreamChoice, StreamChunk, StreamDelta};

/// Parses a payload the way the application does (a JSON object whose `choices` holds
/// `delta.content` strings); anything else is not a chunk.
fn parse_chunk(payload: &str) -> Option<StreamChunk> {
    let v: serde_json::Value = serde_json::from_str(payload).ok()?;
    let obj = v.as_object()?;
    let choices = match obj.get("choices") {
        None | Some(serde_json::Value::Null) => None,
        Some(serde_json::Value::Array(items)) => {
            let mut out = Vec::new();
            for item in items {
                let delta = match item.get("delta") {
                    None | Some(serde_json::Value::Null) => None,
                    Some(d) => Some(StreamDelta {
                        content: d.get("content").and_then(|c| c.as_str()).map(|s| s.to_string()),
                    }),
                };
                out.push(StreamChoice { delta });
            }
            Some(out)
        }
        Some(_) => return None,
    };
    Some(StreamChunk { choices })
}

fn run_chunks(chunks: &[&[u8]]) -> (String, Vec<String>) {
    let mut decoder = SseDecoder::new();
    let mut deltas = Vec::new();
    for chunk in chunks {
        for payload in decoder.feed(chunk) {
            deltas.extend(decoder.apply_chunk(parse_chunk(&payload)));
        }
        if decoder.done() {
            break;
        }
    }
    (decoder.full_content(), deltas)
}

fn parse_sse_string(sse: &str) -> (String, Vec<String>) {
    run_chunks(&[sse.as_bytes()])
}

#[test]
fn test_sse_single_delta() {
    let sse = "data: {\"choices\":[{\"delta\":{\"content\":\"Hello\"}}]}\n\ndata: [DONE]\n\n";
    let (full, deltas) = parse_sse_string(sse);
    assert_eq!(full, "Hello");
    assert_eq!(deltas, vec!["Hello"]);
}

#[test]
fn test_sse_multiple_deltas() {
    let sse = &[
        "data: {\"choices\":[{\"delta\":{\"content\":\"Hello\"}}]}\n\n",
        "data: {\"choices\":[{\"delta\":{\"content\":\" world\"}}]}\n\n",
        "data: {\"choices\":[{\"delta\":{\"content\":\"!\"}}]}\n\n",
        "data: [DONE]\n\n",
    ]
    .concat();
    let (full, deltas) = parse_sse_string(sse);
    assert_eq!(full, "Hello world!");
    assert_eq!(deltas, vec!["Hello", " world", "!"]);
}

#[test]
fn test_sse_done_returns_full_content() {
    let sse = &[
        "data: {\"choices\":[{\"delta\":{\"content\":\"A\"}}]}\n\n",
        "data: {\"choices\":[{\"delta\":{\"content\":\"B\"}}]}\n\n",
        "data: [DONE]\n\n",
    ]
    .concat();
    let (full, _deltas) = parse_sse_string(sse);
    assert_eq!(full, "AB");
}

#[test]
fn test_sse_empty_lines_and_comments_skipped() {
    let sse = &[
        ": this is a comment\n",
        "\n",
        "data: {\"choices\":[{\"delta\":{\"content\":\"Hi\"}}]}\n",
        "\n",
        ": another comment\n",
        "\n",
        "data: [DONE]\n\n",
    ]
    .concat();
    let (full, deltas) = parse_sse_string(sse);
    assert_eq!(full, "Hi");
    assert_eq!(deltas, vec!["Hi"]);
}

#[test]
fn test_sse_malformed_json_skipped() {
    let sse = &[
        "data: {\"choices\":[{\"delta\":{\"content\":\"Good\"}}]}\n\n",
        "data: {malformed json\n\n",
        "data: {\"choices\":[{\"delta\":{\"content\":\" day\"}}]}\n\n",
        "data: [DONE]\n\n",
    ]
    .concat();
    let (full, deltas) = parse_sse_string(sse);
    assert_eq!(full, "Good day");
    assert_eq!(deltas, vec!["Good", " day"]);
}

#[test]
fn test_sse_chunked_partial_lines() {
    let chunk1 = "data: {\"choices\":[{\"delt";
    let chunk2 = "a\":{\"content\":\"Hi\"}}]}\n\ndata: [DONE]\n\n";
    let (full, deltas) = run_chunks(&[chunk1.as_bytes(), chunk2.as_bytes()]);
    assert_eq!(full, "Hi");
    assert_eq!(deltas, vec!["Hi"]);
}

#[test]
fn test_sse_no_done_marker() {
    let sse = "data: {\"choices\":[{\"delta\":{\"content\":\"Hello\"}}]}\n\n";
    let (full, deltas) = parse_sse_string(sse);
    assert_eq!(full, "Hello");
    assert_eq!(deltas, vec!["Hello"]);
}

#[test]
fn test_sse_delta_no_content() {
    let sse = &[
        "data: {\"choices\":[{\"delta\":{\"role\":\"assistant\"}}]}\n\n",
        "data: {\"choices\":[{\"delta\":{\"content\":\"Hi\"}}]}\n\n",
        "data: [DONE]\n\n",
    ]
    .concat();
    let (full, deltas) = parse_sse_string(sse);
    assert_eq!(full, "Hi");
    assert_eq!(deltas, vec!["Hi"]);
}

#[test]
fn nothing_after_the_terminator_is_read() {
    let sse = &[
        "data: {\"choices\":[{\"delta\":{\"content\":\"A\"}}]}\n",
        "data: [DONE]\n",
        "data: {\"choices\":[{\"delta\":{\"content\":\"B\"}}]}\n",
    ]
    .concat();
    let mut decoder = SseDecoder::new();
    let payloads = decoder.feed(sse.as_bytes());
    assert_eq!(payloads, vec!["{\"choices\":[{\"delta\":{\"content\":\"A\"}}]}".to_string()]);
    assert!(decoder.done());
    assert!(decoder.feed(b"data: {}\n").is_empty());
}

#[test]
fn chunk_boundaries_do_not_matter() {
    let sse = "data: {\"choices\":[{\"delta\":{\"content\":\"Hé\"}}]}\r\n: c\n\ndata: {\"choices\":[{\"delta\":{\"content\":\"llo\"}}]}\n  data: [DONE]  \n";
    let whole = parse_sse_string(sse);
    let bytes = sse.as_bytes();
    for cut in 0..bytes.len() {
        let (a, b) = bytes.split_at(cut);
        assert_eq!(run_chunks(&[a, b]), whole);
    }
    assert_eq!(whole.0, "Héllo");
}

#[test]
fn characters_split_across_chunks_are_decoded_whole() {
    let sse = "data: {\"choices\":[{\"delta\":{\"content\":\"€ and 😀\"}}]}\n";
    let bytes = sse.as_bytes();
    let whole = parse_sse_string(sse);
    assert_eq!(whole.0, "€ and 😀");
    for i in 0..bytes.len() {
        for j in i..bytes.len() {
            let parts = [&bytes[..i], &bytes[i..j], &bytes[j..]];
            assert_eq!(run_chunks(&parts), whole);
        }
    }
}

#[test]
fn an_incomplete_character_is_held_back() {
    let mut decoder = SseDecoder::new();
    let euro = "€".as_bytes();
    assert!(decoder.feed(b"data: x").is_empty());
    assert!(decoder.feed(&euro[..2]).is_empty());
    let payloads = decoder.feed(&[&euro[2..], b"\n".as_slice()].concat());
    assert_eq!(payloads, vec!["x€".to_string()]);
}

#[test]
fn lines_are_classified() {
    let c = |s: &str| classify_line(&s.chars().collect());
    assert!(matches!(c("   "), SseLine::Skip));
    assert!(matches!(c(": ping"), SseLine::Skip));
    assert!(matches!(c("event: x"), SseLine::Skip));
    assert!(matches!(c("data: [DONE] "), SseLine::Done));
    assert!(matches!(c(" data:  [DONE]"), SseLine::Done));
    match c("data: {\"a\":1} ") {
        SseLine::Data(d) => assert_eq!(d, "{\"a\":1}"),
        _ => panic!("expected data"),
    }
}
