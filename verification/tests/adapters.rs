use workhorse::adapters::openai_compat::{raw_choices, usage_counts};
use workhorse::adapters::openai_compat::{
    reply_events, status_failure, status_verdict, usage_tokens, RawChoice, RawToolCall,
    StatusVerdict,
};
use workhorse::adapters::{LLMError, MockAdapter, ResponseEvent, Usage};
use workhorse::engine::{Cost, Message, MessageContent, Role};

fn user(text: &str) -> Message {
    Message { role: Role::User, content: MessageContent::Text { text: text.to_string() } }
}

fn mock() -> MockAdapter {
    MockAdapter::new(vec![
        ("gpt-4o-mini".to_string(), (4_000_000_000, 1_000_000_000)),
        ("gpt-4o".to_string(), (250, 500)),
    ])
}

fn chunk_texts(events: &[ResponseEvent]) -> Vec<String> {
    events
        .iter()
        .filter_map(|e| match e {
            ResponseEvent::Chunk(t) => Some(t.clone()),
            _ => None,
        })
        .collect()
}

#[test]
fn mock_adapter_streams_response_events() {
    let mut adapter = mock();
    let events = adapter.send(&vec![user("hello")]);
    assert!(!events.is_empty());
    assert!(events.iter().any(|e| matches!(e, ResponseEvent::Chunk(_))));
    assert!(events.iter().any(|e| matches!(e, ResponseEvent::Done(_))));
}

#[test]
fn mock_reply_to_hello_is_exact() {
    let mut adapter = mock();
    let events = adapter.send(&vec![user("hello")]);
    assert_eq!(events.len(), 3);
    assert_eq!(chunk_texts(&events), vec!["Mock response to: ", "hello "]);
    match &events[2] {
        ResponseEvent::Done(u) => {
            assert_eq!(u.input_tokens, 1);
            assert_eq!(u.output_tokens, 5);
            assert_eq!(u.cost, Cost(4000 + 5000));
        }
        other => panic!("expected Done, got {:?}", other),
    }
}

#[test]
fn adapter_normalizes_tool_calls() {
    let mut adapter = mock();
    let events = adapter.send(&vec![user("read the file")]);
    let calls: Vec<_> = events
        .iter()
        .filter_map(|e| match e {
            ResponseEvent::ToolCall(inv) => Some(inv),
            _ => None,
        })
        .collect();
    assert_eq!(calls.len(), 1);
    for tc in &calls {
        assert!(!tc.call_id.is_empty(), "tool call must have a call_id");
        assert!(!tc.tool_name.is_empty(), "tool call must have a tool_name");
    }
}

#[test]
fn mock_tool_call_comes_first_and_ignores_case() {
    let mut adapter = mock();
    let events = adapter.send(&vec![user("Please READ the file now")]);
    match &events[0] {
        ResponseEvent::ToolCall(inv) => {
            assert_eq!(inv.call_id, "call_0");
            assert_eq!(inv.tool_name, "filesystem");
            assert_eq!(inv.arguments["path"], "/tmp/example.txt");
        }
        other => panic!("expected a tool call, got {:?}", other),
    }
    assert_eq!(
        chunk_texts(&events),
        vec!["Mock response to: ", "Please READ the ", "file now "]
    );
    match events.last().unwrap() {
        ResponseEvent::Done(u) => {
            assert_eq!(u.input_tokens, 6);
            assert_eq!(u.output_tokens, 10);
        }
        other => panic!("expected Done, got {:?}", other),
    }
    let again = adapter.send(&vec![user("read the file")]);
    match &again[0] {
        ResponseEvent::ToolCall(inv) => assert_eq!(inv.call_id, "call_1"),
        other => panic!("expected a tool call, got {:?}", other),
    }
}

#[test]
fn mock_joins_user_texts_only() {
    let mut adapter = mock();
    let messages = vec![
        Message { role: Role::System, content: MessageContent::Text { text: "sys".to_string() } },
        user("a"),
        Message { role: Role::Assistant, content: MessageContent::Text { text: "b".to_string() } },
        user("c"),
    ];
    let events = adapter.send(&messages);
    assert_eq!(chunk_texts(&events), vec!["Mock response to: ", "a c "]);
    match events.last().unwrap() {
        ResponseEvent::Done(u) => assert_eq!(u.input_tokens, 1),
        other => panic!("expected Done, got {:?}", other),
    }
}

#[test]
fn adapter_usage_includes_cost_from_pricing_table() {
    let mut adapter = mock();
    let events = adapter.send(&vec![user("hello")]);
    let done = events.iter().find_map(|e| match e {
        ResponseEvent::Done(usage) => Some(usage),
        _ => None,
    });
    let usage = done.expect("adapter must emit Done event with Usage");
    assert!(usage.input_tokens > 0 || usage.output_tokens > 0);
    assert!(usage.cost.0 > 0);
}

#[test]
fn adapter_capabilities_describe_model_features() {
    let caps = mock().capabilities();
    assert!(caps.streaming);
    assert!(caps.tool_calling);
    assert!(caps.structured_output);
    assert!(!caps.vision);
    assert_eq!(caps.max_context_tokens, 128_000);
}

#[test]
fn mock_compute_cost_rounds_each_part_down() {
    let adapter = MockAdapter::new(vec![("m".to_string(), (2_000_000, 3_000_000))]);
    assert_eq!(adapter.compute_cost("m", 10, 20), Cost(80));
    assert_eq!(adapter.compute_cost("unknown", 10, 20), Cost(0));
    let cheap = MockAdapter::new(vec![("m".to_string(), (1, 1))]);
    assert_eq!(cheap.compute_cost("m", 999_999, 999_999), Cost(0));
}

#[test]
fn mock_later_pricing_entry_wins() {
    let adapter = MockAdapter::new(vec![
        ("m".to_string(), (1_000_000, 0)),
        ("m".to_string(), (2_000_000, 0)),
    ]);
    assert_eq!(adapter.compute_cost("m", 1, 0), Cost(2));
}

#[test]
fn mock_call_ids_count_up() {
    let mut adapter = mock();
    assert_eq!(adapter.next_call_id(), "call_0");
    assert_eq!(adapter.next_call_id(), "call_1");
}

#[test]
fn llm_error_messages() {
    assert_eq!(LLMError::Network("down".to_string()).message(), "network error: down");
    assert_eq!(LLMError::Auth("bad key".to_string()).message(), "authentication error: bad key");
    assert_eq!(
        LLMError::RateLimited { retry_after_ms: 250 }.message(),
        "rate limited: retry after 250ms"
    );
    assert_eq!(LLMError::Model("x".to_string()).message(), "model error: x");
    assert_eq!(LLMError::Parse("y".to_string()).message(), "response parse error: y");
    assert_eq!(LLMError::BudgetExceeded.message(), "budget exceeded");
}

#[test]
fn status_verdicts() {
    assert!(matches!(status_verdict(200, &None), StatusVerdict::Success));
    assert!(matches!(status_verdict(299, &None), StatusVerdict::Success));
    match status_verdict(401, &None) {
        StatusVerdict::Fail(LLMError::Auth(m)) => assert_eq!(m, "authentication failed"),
        other => panic!("unexpected {:?}", other),
    }
    assert!(matches!(status_verdict(500, &None), StatusVerdict::ReadBody));
    assert!(matches!(status_verdict(302, &None), StatusVerdict::ReadBody));
    assert!(matches!(status_verdict(199, &None), StatusVerdict::ReadBody));
}

#[test]
fn rate_limit_reads_retry_after() {
    let wait = |h: Option<&str>| match status_verdict(429, &h.map(|s| s.to_string())) {
        StatusVerdict::Fail(LLMError::RateLimited { retry_after_ms }) => retry_after_ms,
        other => panic!("unexpected {:?}", other),
    };
    assert_eq!(wait(Some("2500")), 2500);
    assert_eq!(wait(Some("+7")), 7);
    assert_eq!(wait(Some("soon")), 1000);
    assert_eq!(wait(Some("")), 1000);
    assert_eq!(wait(Some("-1")), 1000);
    assert_eq!(wait(Some("18446744073709551615")), u64::MAX);
    assert_eq!(wait(Some("18446744073709551616")), 1000);
    assert_eq!(wait(None), 1000);
}

#[test]
fn failed_status_reports_body() {
    match status_failure("500 Internal Server Error", "boom") {
        LLMError::Model(m) => assert_eq!(m, "HTTP 500 Internal Server Error: boom"),
        other => panic!("unexpected {:?}", other),
    }
}

#[test]
fn usage_counts_default_and_truncate() {
    assert_eq!(usage_tokens(Some(12), None), (12, 0));
    assert_eq!(usage_tokens(None, Some(7)), (0, 7));
    assert_eq!(usage_tokens(Some((1u64 << 32) + 5), Some(u64::MAX)), (5, u32::MAX));
}

#[test]
fn reply_events_follow_the_choices() {
    let choices = Some(vec![
        RawChoice {
            content: Some("hi".to_string()),
            tool_calls: Some(vec![
                RawToolCall {
                    id: Some("c1".to_string()),
                    name: Some("search".to_string()),
                    arguments: Some("{\"q\":1}".to_string()),
                },
                RawToolCall { id: None, name: None, arguments: Some("not json".to_string()) },
            ]),
        },
        RawChoice { content: None, tool_calls: None },
        RawChoice { content: Some("bye".to_string()), tool_calls: None },
    ]);
    let usage = Usage { input_tokens: 3, output_tokens: 4, cost: Cost(9) };
    let events = reply_events(&choices, usage);
    assert_eq!(events.len(), 5);
    assert!(matches!(&events[0], ResponseEvent::Chunk(t) if t == "hi"));
    match &events[1] {
        ResponseEvent::ToolCall(inv) => {
            assert_eq!(inv.call_id, "c1");
            assert_eq!(inv.tool_name, "search");
            assert_eq!(inv.arguments["q"], 1);
        }
        other => panic!("unexpected {:?}", other),
    }
    match &events[2] {
        ResponseEvent::ToolCall(inv) => {
            assert_eq!(inv.call_id, "unknown");
            assert_eq!(inv.tool_name, "unknown");
            assert_eq!(inv.arguments, serde_json::Value::Object(serde_json::Map::new()));
        }
        other => panic!("unexpected {:?}", other),
    }
    assert!(matches!(&events[3], ResponseEvent::Chunk(t) if t == "bye"));
    match &events[4] {
        ResponseEvent::Done(u) => {
            assert_eq!((u.input_tokens, u.output_tokens, u.cost), (3, 4, Cost(9)))
        }
        other => panic!("unexpected {:?}", other),
    }
}

#[test]
fn reply_without_choices_is_only_usage() {
    let usage = Usage { input_tokens: 0, output_tokens: 0, cost: Cost(0) };
    let events = reply_events(&None, usage);
    assert_eq!(events.len(), 1);
    assert!(matches!(events[0], ResponseEvent::Done(_)));
}

#[test]
fn fresh_adapter_starts_at_call_0_and_counts_only_tool_calls() {
    let mut adapter = mock();
    adapter.send(&vec![user("hello")]);
    let events = adapter.send(&vec![user("read the file")]);
    assert!(matches!(&events[0], ResponseEvent::ToolCall(inv) if inv.call_id == "call_0"));
    assert_eq!(adapter.next_call_id(), "call_1");
}

#[test]
fn send_checked_refuses_a_cost_past_64_bits() {
    let mut huge = MockAdapter::new(vec![("gpt-4o-mini".to_string(), (u64::MAX, 0))]);
    assert!(!huge.cost_fits_in_64_bits("gpt-4o-mini", 2, 0));
    assert!(huge.cost_fits_in_64_bits("gpt-4o-mini", 1, 0));
    assert!(huge.send_checked(&vec![user("hello hello hello")]).is_none());
    let mut fine = mock();
    let events = fine.send_checked(&vec![user("hello")]).unwrap();
    assert_eq!(events.len(), 3);
    assert!(huge.cost_fits_in_64_bits("unpriced", u32::MAX, u32::MAX));
}

#[test]
fn completions_url_appends_the_endpoint() {
    assert_eq!(
        workhorse::adapters::openai_compat::completions_url("http://localhost:1234/v1"),
        "http://localhost:1234/v1/chat/completions"
    );
}

#[test]
fn raw_choices_read_the_reply_body() {
    let body: serde_json::Value = serde_json::from_str(
        r#"{"choices":[{"message":{"content":"hello","tool_calls":[{"id":"c1","function":{"name":"fs","arguments":"{\"p\":1}"}},{"function":{"name":7}}]}},{"message":{"content":3}}],"usage":{"prompt_tokens":12,"completion_tokens":-1}}"#,
    )
    .unwrap();
    let choices = raw_choices(&body).expect("choices");
    assert_eq!(choices.len(), 2);
    assert_eq!(choices[0].content.as_deref(), Some("hello"));
    let calls = choices[0].tool_calls.as_ref().expect("tool calls");
    assert_eq!(calls.len(), 2);
    assert_eq!(calls[0].id.as_deref(), Some("c1"));
    assert_eq!(calls[0].name.as_deref(), Some("fs"));
    assert_eq!(calls[0].arguments.as_deref(), Some("{\"p\":1}"));
    assert_eq!(calls[1].id, None);
    assert_eq!(calls[1].name, None);
    assert_eq!(calls[1].arguments, None);
    assert_eq!(choices[1].content, None);
    assert!(choices[1].tool_calls.is_none());
    assert_eq!(usage_counts(&body), (Some(12), None));

    let no_choices: serde_json::Value = serde_json::from_str(r#"{"choices":{}}"#).unwrap();
    assert!(raw_choices(&no_choices).is_none());
    assert_eq!(usage_counts(&no_choices), (None, None));
}
