use ai_group_chat::models::Bot;
use ai_group_chat::turn::{
    chat_request_for, delta_event, failed_event, finished_event, retry_wait_secs, retrying_event,
    select_bots, thinking_event, turn_step, Reply, StreamEvent, TurnAction, TurnEvent, TurnState,
    NO_BOTS_ERROR,
};

fn bot(id: &str, name: &str) -> Bot {
    Bot {
        id: id.to_string(),
        name: name.to_string(),
        avatar_color: "#6366f1".to_string(),
        base_url: "https://api.example/v1".to_string(),
        api_key: "sk-test".to_string(),
        model: "gpt-4".to_string(),
        system_prompt: "".to_string(),
        supports_vision: false,
        created_at: "2024-01-01T00:00:00Z".to_string(),
    }
}

fn status(code: u16, line: &str) -> TurnEvent {
    TurnEvent::Replied(Reply::Status { code, line: line.to_string() })
}

/// Runs a turn on the given events; returns the events sent and the actions asked for.
fn run(events: Vec<TurnEvent>) -> (Vec<StreamEvent>, Vec<TurnAction>, TurnState) {
    let b = bot("b1", "Ada");
    let mut state = TurnState::Start;
    let mut sent = Vec::new();
    let mut actions = Vec::new();
    for e in events {
        let step = turn_step("t1", &b, state, e);
        state = step.state;
        if let Some(ev) = step.emit {
            sent.push(ev);
        }
        actions.push(step.action);
    }
    (sent, actions, state)
}

#[test]
fn requested_bots_are_kept_in_topic_order() {
    let bots = vec![bot("a", "A"), bot("b", "B"), bot("c", "C")];
    let chosen = select_bots(bots.clone(), &Some(vec!["c".to_string(), "a".to_string(), "zz".to_string()])).unwrap();
    let ids: Vec<&str> = chosen.iter().map(|b| b.id.as_str()).collect();
    assert_eq!(ids, vec!["a", "c"]);
    let all = select_bots(bots, &None).unwrap();
    assert_eq!(all.len(), 3);
}

#[test]
fn no_bots_is_an_error() {
    assert_eq!(select_bots(vec![], &None).unwrap_err(), NO_BOTS_ERROR);
    assert_eq!(
        select_bots(vec![bot("a", "A")], &Some(vec!["b".to_string()])).unwrap_err(),
        "No bots available for this topic"
    );
}

#[test]
fn a_successful_turn() {
    let (sent, actions, state) = run(vec![
        TurnEvent::Begin,
        status(200, "200 OK"),
        TurnEvent::Streamed(Ok("Hello".to_string())),
        TurnEvent::Saved(Some("m1".to_string())),
    ]);
    assert!(matches!(state, TurnState::Over));
    assert_eq!(sent.len(), 2);
    assert_eq!(sent[0].status.as_deref(), Some("thinking"));
    assert!(!sent[0].done);
    assert_eq!(sent[0].topic_id, "t1");
    assert_eq!(sent[0].bot_id, "b1");
    assert_eq!(sent[0].bot_name, "Ada");
    assert!(sent[1].done);
    assert_eq!(sent[1].message_id.as_deref(), Some("m1"));
    assert!(sent[1].error.is_none());
    assert!(matches!(actions[0], TurnAction::Send));
    assert!(matches!(actions[1], TurnAction::Stream));
    match &actions[2] {
        TurnAction::Save(t) => assert_eq!(t, "Hello"),
        _ => panic!("expected save"),
    }
    assert!(matches!(actions[3], TurnAction::Stop));
}

#[test]
fn rate_limits_are_retried_three_times() {
    let (sent, actions, state) = run(vec![
        TurnEvent::Begin,
        status(429, "429 Too Many Requests"),
        TurnEvent::Slept,
        status(429, "429 Too Many Requests"),
        TurnEvent::Slept,
        status(429, "429 Too Many Requests"),
        TurnEvent::Slept,
        status(429, "429 Too Many Requests"),
        TurnEvent::BodyRead("slow down".to_string()),
    ]);
    assert!(matches!(state, TurnState::Over));
    let deltas: Vec<&str> = sent.iter().map(|e| e.delta.as_str()).collect();
    assert_eq!(
        deltas,
        vec![
            "",
            "Rate limited, retrying (1/3)...",
            "Rate limited, retrying (2/3)...",
            "Rate limited, retrying (3/3)...",
            "",
        ]
    );
    assert_eq!(sent[1].status.as_deref(), Some("retrying"));
    assert_eq!(sent[4].error.as_deref(), Some("API rate limited after 3 retries: slow down"));
    assert!(sent[4].done);
    let waits: Vec<u64> = actions
        .iter()
        .filter_map(|a| match a {
            TurnAction::Sleep(s) => Some(*s),
            _ => None,
        })
        .collect();
    assert_eq!(waits, vec![1, 2, 4]);
    assert!(matches!(actions[7], TurnAction::ReadBody));
}

#[test]
fn a_retry_that_succeeds() {
    let (sent, actions, _) = run(vec![
        TurnEvent::Begin,
        status(429, "429 Too Many Requests"),
        TurnEvent::Slept,
        status(200, "200 OK"),
        TurnEvent::Streamed(Err("Stream error: connection reset".to_string())),
    ]);
    assert_eq!(sent.len(), 3);
    assert_eq!(sent[2].error.as_deref(), Some("Stream error: connection reset"));
    assert!(matches!(actions[3], TurnAction::Stream));
}

#[test]
fn other_refusals_report_status_and_body() {
    let (sent, _, _) = run(vec![
        TurnEvent::Begin,
        status(500, "500 Internal Server Error"),
        TurnEvent::BodyRead("boom".to_string()),
    ]);
    assert_eq!(sent.len(), 2);
    assert_eq!(sent[1].error.as_deref(), Some("API error (500 Internal Server Error): boom"));
}

#[test]
fn unsent_requests_fail_at_once() {
    let (sent, actions, state) = run(vec![
        TurnEvent::Begin,
        TurnEvent::Replied(Reply::Unsent("HTTP request failed: refused".to_string())),
    ]);
    assert!(matches!(state, TurnState::Over));
    assert_eq!(sent[1].error.as_deref(), Some("HTTP request failed: refused"));
    assert!(matches!(actions[1], TurnAction::Stop));
}

#[test]
fn unexpected_events_end_the_turn_silently() {
    let (sent, actions, state) = run(vec![TurnEvent::Slept]);
    assert!(sent.is_empty());
    assert!(matches!(actions[0], TurnAction::Stop));
    assert!(matches!(state, TurnState::Over));
}

#[test]
fn waits_double_from_one_second() {
    assert_eq!(retry_wait_secs(0), 1);
    assert_eq!(retry_wait_secs(1), 2);
    assert_eq!(retry_wait_secs(2), 4);
}

#[test]
fn events_carry_the_bot() {
    let b = bot("b9", "Lin");
    let e = delta_event("t", &b, "piece");
    assert_eq!((e.delta.as_str(), e.done, e.status.is_none()), ("piece", false, true));
    let e = failed_event("t", &b, "bad".to_string());
    assert!(e.done && e.error.as_deref() == Some("bad") && e.message_id.is_none());
    let e = finished_event("t", &b, None);
    assert!(e.done && e.error.is_none() && e.message_id.is_none());
    let e = thinking_event("t", &b);
    assert_eq!(e.bot_name, "Lin");
    let e = retrying_event("t", &b, 1);
    assert_eq!(e.delta, "Rate limited, retrying (2/3)...");
}

#[test]
fn requests_stream_the_bot_model() {
    let b = bot("b1", "Ada");
    let r = chat_request_for(&b, vec![]);
    assert_eq!(r.model, "gpt-4");
    assert!(r.stream);
    assert!(r.messages.is_empty());
}
