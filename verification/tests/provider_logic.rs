use motif::error::Error;
use motif::provider::{
    anthropic_conversation, auth_header, chunk_events, classify_sse_line, endpoint_url,
    parse_anthropic_response, parse_response, single_shot_events, usage_fits, AnthropicBlock,
    AnthropicContent, AnthropicResponse, AnthropicUsage, ApiFormat, Attempt, BodyValue, ChatChoice,
    ChatFunctionCall, ChatMessage, ChatResponse, ChatToolCall, ChatUsage, ProviderSettings,
    RetryDecision, RetryPolicy, SseBuffer, SseLine, StreamChunk,
};
use motif::types::{AssistantMessage, FinishReason, LLMResponse, Message, StreamEvent, ToolCall, ToolMessage, FunctionCall};

fn choice(content: Option<&str>, finish: Option<&str>) -> ChatChoice {
    ChatChoice {
        message: ChatMessage { content: content.map(|s| s.to_string()), tool_calls: None },
        finish_reason: finish.map(|s| s.to_string()),
    }
}

#[test]
fn endpoints_and_headers() {
    assert_eq!(endpoint_url("https://x/v1", ApiFormat::OpenAI), "https://x/v1/chat/completions");
    assert_eq!(endpoint_url("https://x/anthropic", ApiFormat::Anthropic), "https://x/anthropic/messages");
    let (h, v) = auth_header(ApiFormat::OpenAI, "k1");
    assert_eq!((h, v.as_str()), ("Authorization", "Bearer k1"));
    let (h, v) = auth_header(ApiFormat::Anthropic, "k2");
    assert_eq!((h, v.as_str()), ("x-api-key", "k2"));
}

#[test]
fn retry_policy_budget_and_delays() {
    let mut p = RetryPolicy::new(2, 1000);
    assert!(p.has_attempt());
    assert_eq!(p.delay_before(), Some(0));
    assert!(matches!(p.after_attempt(Attempt::Failed(Error::Http("down".into()))), RetryDecision::Retry));
    assert_eq!(p.delay_before(), Some(1000));
    assert!(matches!(
        p.after_attempt(Attempt::Rejected { status: 503, body: "busy".into() }),
        RetryDecision::Retry
    ));
    assert_eq!(p.delay_before(), Some(2000));
    assert!(matches!(
        p.after_attempt(Attempt::Rejected { status: 429, body: "slow".into() }),
        RetryDecision::Retry
    ));
    assert!(!p.has_attempt());
    match p.into_error() {
        Error::ApiError { status, body } => {
            assert_eq!(status, 429);
            assert_eq!(body, "slow");
        }
        other => panic!("unexpected {:?}", other),
    }
}

#[test]
fn retry_policy_client_errors_fail_at_once() {
    let mut p = RetryPolicy::new(2, 10);
    match p.after_attempt(Attempt::Rejected { status: 400, body: "bad".into() }) {
        RetryDecision::Fail(Error::ApiError { status, body }) => {
            assert_eq!(status, 400);
            assert_eq!(body, "bad");
        }
        other => panic!("unexpected {:?}", other),
    }
    let mut q = RetryPolicy::new(0, 10);
    assert!(matches!(q.after_attempt(Attempt::Succeeded), RetryDecision::Succeed));
    let none = RetryPolicy::new(0, 10);
    match none.into_error() {
        Error::Custom(m) => assert_eq!(m, "max retries exhausted"),
        other => panic!("unexpected {:?}", other),
    }
}

#[test]
fn retry_delay_overflow_is_reported() {
    let mut p = RetryPolicy::new(3, u64::MAX);
    assert!(matches!(p.after_attempt(Attempt::Failed(Error::Http("x".into()))), RetryDecision::Retry));
    assert_eq!(p.delay_before(), Some(u64::MAX));
    assert!(matches!(p.after_attempt(Attempt::Failed(Error::Http("x".into()))), RetryDecision::Retry));
    assert_eq!(p.delay_before(), None);
}

#[test]
fn openai_reply_mapping() {
    let resp = ChatResponse {
        choices: vec![ChatChoice {
            message: ChatMessage {
                content: None,
                tool_calls: Some(vec![ChatToolCall {
                    id: "c1".into(),
                    call_type: "function".into(),
                    function: ChatFunctionCall { name: "ping".into(), arguments: "{}".into() },
                }]),
            },
            finish_reason: Some("tool_calls".into()),
        }],
        usage: Some(ChatUsage { prompt_tokens: 3, completion_tokens: 4, total_tokens: 7 }),
    };
    let r = parse_response(resp).ok().unwrap();
    assert_eq!(r.message.content, "");
    let calls = r.message.tool_calls.unwrap();
    assert_eq!(calls.len(), 1);
    assert_eq!(calls[0].id, "c1");
    assert_eq!(calls[0].function.name, "ping");
    assert!(matches!(r.finish_reason, FinishReason::ToolCalls));
    assert_eq!(r.usage.unwrap().total_tokens, 7);
}

#[test]
fn openai_finish_reasons() {
    let cases = [
        (None, "Stop"),
        (Some("stop"), "Stop"),
        (Some("length"), "Length"),
        (Some("content_filter"), "ContentFilter"),
        (Some("weird"), "Custom(\"weird\")"),
    ];
    for (name, want) in cases {
        let r = parse_response(ChatResponse { choices: vec![choice(Some("hi"), name)], usage: None })
            .ok()
            .unwrap();
        assert_eq!(format!("{:?}", r.finish_reason), want);
        assert_eq!(r.message.content, "hi");
        assert!(r.usage.is_none());
    }
}

#[test]
fn openai_reply_without_choices_is_an_error() {
    match parse_response(ChatResponse { choices: vec![], usage: None }) {
        Err(Error::ApiError { status, body }) => {
            assert_eq!(status, 200);
            assert_eq!(body, "No choices in response");
        }
        _ => panic!("expected an API error"),
    }
}

fn block(kind: &str, text: Option<&str>, id: Option<&str>, name: Option<&str>, input: Option<&str>) -> AnthropicContent {
    AnthropicContent {
        text: text.map(|s| s.to_string()),
        content_type: kind.to_string(),
        input: input.map(|s| s.to_string()),
        name: name.map(|s| s.to_string()),
        id: id.map(|s| s.to_string()),
    }
}

#[test]
fn anthropic_reply_mapping() {
    let resp = AnthropicResponse {
        content: vec![
            block("text", Some("Hello "), None, None, None),
            block("tool_use", None, Some("t1"), Some("ping"), Some("{\"n\":1}")),
            block("text", Some("world"), None, None, None),
            block("thinking", Some("hidden"), None, None, None),
        ],
        stop_reason: Some("tool_use".into()),
        usage: Some(AnthropicUsage { input_tokens: Some(5), output_tokens: None }),
    };
    assert!(usage_fits(&resp));
    let r = parse_anthropic_response(resp);
    assert_eq!(r.message.content, "Hello world");
    let calls = r.message.tool_calls.unwrap();
    assert_eq!(calls.len(), 1);
    assert_eq!(calls[0].id, "t1");
    assert_eq!(calls[0].call_type, "function");
    assert_eq!(calls[0].function.arguments, "{\"n\":1}");
    assert!(matches!(r.finish_reason, FinishReason::ToolCalls));
    let u = r.usage.unwrap();
    assert_eq!((u.prompt_tokens, u.completion_tokens, u.total_tokens), (5, 0, 5));
}

#[test]
fn anthropic_reply_without_tools_or_usage() {
    let resp = AnthropicResponse {
        content: vec![block("text", Some("done"), None, None, None)],
        stop_reason: Some("max_tokens".into()),
        usage: None,
    };
    let r = parse_anthropic_response(resp);
    assert!(r.message.tool_calls.is_none());
    assert!(matches!(r.finish_reason, FinishReason::Length));
    assert!(r.usage.is_none());
    let end = parse_anthropic_response(AnthropicResponse { content: vec![], stop_reason: Some("end_turn".into()), usage: None });
    assert!(matches!(end.finish_reason, FinishReason::Stop));
    let over = AnthropicResponse {
        content: vec![],
        stop_reason: None,
        usage: Some(AnthropicUsage { input_tokens: Some(u32::MAX), output_tokens: Some(1) }),
    };
    assert!(!usage_fits(&over));
}

#[test]
fn anthropic_request_layout() {
    let messages = vec![
        Message::system("rules"),
        Message::user("hi"),
        Message::Assistant(AssistantMessage {
            content: String::new(),
            tool_calls: Some(vec![ToolCall {
                id: "c1".into(),
                call_type: "function".into(),
                function: FunctionCall { name: "ping".into(), arguments: "{}".into() },
            }]),
        }),
        Message::Tool(ToolMessage { content: "pong".into(), tool_call_id: "c1".into() }),
        Message::system("more"),
    ];
    let c = anthropic_conversation(&messages);
    assert_eq!(c.system, "rules\n\nmore");
    assert_eq!(c.messages.len(), 3);
    assert_eq!(c.messages[0].role, "user");
    assert!(matches!(&c.messages[0].blocks[..], [AnthropicBlock::Text(t)] if t == "hi"));
    assert_eq!(c.messages[1].role, "assistant");
    assert!(matches!(&c.messages[1].blocks[..], [AnthropicBlock::ToolUse { id, name, .. }] if id == "c1" && name == "ping"));
    assert_eq!(c.messages[2].role, "user");
    assert!(matches!(&c.messages[2].blocks[..], [AnthropicBlock::ToolResult { tool_use_id, content }] if tool_use_id == "c1" && content == "pong"));
}

#[test]
fn anthropic_tool_use_carries_parsed_input() {
    let call = |id: &str, args: &str| ToolCall {
        id: id.into(),
        call_type: "function".into(),
        function: FunctionCall { name: "ping".into(), arguments: args.into() },
    };
    let messages = vec![Message::Assistant(AssistantMessage {
        content: "checking".into(),
        tool_calls: Some(vec![call("c1", "{\"n\": 2}"), call("c2", "not json")]),
    })];
    let c = anthropic_conversation(&messages);
    assert_eq!(c.messages.len(), 1);
    let expected: serde_json::Value = serde_json::from_str("{\"n\":2}").unwrap();
    match &c.messages[0].blocks[..] {
        [AnthropicBlock::Text(t), AnthropicBlock::ToolUse { input: first, arguments, .. }, AnthropicBlock::ToolUse { input: second, .. }] => {
            assert_eq!(t, "checking");
            assert_eq!(arguments, "{\"n\": 2}");
            assert_eq!(first, &Some(expected));
            assert_eq!(second, &None);
        }
        other => panic!("unexpected blocks: {:?}", other),
    }
}

#[test]
fn sse_buffer_splits_lines() {
    let mut b = SseBuffer::new();
    b.push(b"data: a\npar");
    assert_eq!(b.next_line(), Some(b"data: a".to_vec()));
    assert_eq!(b.next_line(), None);
    b.push(b"tial\n\n");
    assert_eq!(b.next_line(), Some(b"partial".to_vec()));
    assert_eq!(b.next_line(), Some(Vec::new()));
    assert_eq!(b.next_line(), None);
}

#[test]
fn sse_line_kinds() {
    assert!(matches!(classify_sse_line(b""), SseLine::Skip));
    assert!(matches!(classify_sse_line(b": keep-alive"), SseLine::Skip));
    assert!(matches!(classify_sse_line(b"data: [DONE]\r"), SseLine::Done));
    assert!(matches!(classify_sse_line(b"data: {\"x\":1}"), SseLine::Data(d) if d == "{\"x\":1}"));
    assert!(matches!(classify_sse_line(b"event: ping"), SseLine::Other));
    assert!(matches!(classify_sse_line(&[0xff, 0xfe]), SseLine::Skip));
}

#[test]
fn chunk_events_in_order() {
    let chunk = StreamChunk {
        reasoning: Some("think".into()),
        content: Some("text".into()),
        finish_reason: Some("length".into()),
    };
    let (events, done) = chunk_events(&chunk);
    assert!(done);
    assert_eq!(events.len(), 3);
    assert!(matches!(&events[0], StreamEvent::Thinking(t) if t == "think"));
    assert!(matches!(&events[1], StreamEvent::Content(t) if t == "text"));
    assert!(matches!(&events[2], StreamEvent::Finish(FinishReason::Length)));
    let quiet = StreamChunk { reasoning: Some(String::new()), content: Some("x".into()), finish_reason: None };
    let (events, done) = chunk_events(&quiet);
    assert!(!done);
    assert_eq!(events.len(), 1);
    let other = StreamChunk { reasoning: None, content: None, finish_reason: Some("whatever".into()) };
    let (events, _) = chunk_events(&other);
    assert!(matches!(&events[0], StreamEvent::Finish(FinishReason::Stop)));
    let both = StreamChunk { reasoning: Some("r".into()), content: Some("c".into()), finish_reason: None };
    let (events, done) = chunk_events(&both);
    assert!(!done);
    assert!(matches!(&events[..], [StreamEvent::Thinking(r), StreamEvent::Content(c)] if r == "r" && c == "c"));
}

#[test]
fn single_shot_stream() {
    let r = LLMResponse {
        message: AssistantMessage { content: "all".into(), tool_calls: None },
        finish_reason: FinishReason::Length,
        usage: None,
    };
    let events = single_shot_events(&r);
    assert_eq!(events.len(), 2);
    assert!(matches!(&events[0], StreamEvent::Content(t) if t == "all"));
    assert!(matches!(&events[1], StreamEvent::Finish(FinishReason::Length)));
}

#[test]
fn provider_settings_defaults_and_builders() {
    let s = ProviderSettings::new("u".into(), "k".into(), "m".into());
    assert_eq!(s.format, ApiFormat::OpenAI);
    assert_eq!(s.max_retries, 2);
    assert_eq!(s.retry_delay_ms, 1000);
    assert!(s.thinking_effort.is_none());
    let s = s
        .with_body("temperature", serde_json::Value::from(0.5))
        .with_body("top_p", serde_json::Value::from(1))
        .with_body("temperature", serde_json::Value::from(0.7))
        .with_retry(5)
        .with_thinking("high");
    assert_eq!(s.extra_body.len(), 2);
    assert_eq!(s.extra_body.get("temperature"), Some(&serde_json::Value::from(0.7)));
    assert_eq!(s.extra_body.get("top_p"), Some(&serde_json::Value::from(1)));
    assert_eq!(s.max_retries, 5);
    assert_eq!(s.thinking_effort.as_deref(), Some("high"));
    let fields = s.body_fields(true, true, "ignored");
    let keys: Vec<&str> = fields.iter().map(|f| f.key.as_str()).collect();
    assert_eq!(
        keys,
        vec!["model", "messages", "stream", "tools", "thinking", "reasoning_effort", "temperature", "top_p"]
    );
    assert!(matches!(&fields[5].value, BodyValue::ReasoningEffort(e) if e == "high"));
    assert!(matches!(fields[6].value, BodyValue::Extra(0)));
    assert!(matches!(fields[7].value, BodyValue::Extra(1)));
}

#[test]
fn anthropic_body_fields() {
    let s = ProviderSettings::new("u".into(), "k".into(), "m".into()).with_anthropic();
    let fields = s.body_fields(false, false, "sys");
    let keys: Vec<&str> = fields.iter().map(|f| f.key.as_str()).collect();
    assert_eq!(keys, vec!["model", "max_tokens", "messages", "system"]);
    assert!(matches!(fields[1].value, BodyValue::MaxTokens(4096)));
    let none = s.body_fields(false, false, "");
    assert_eq!(none.len(), 3);
    let thinking = s.with_thinking("max").body_fields(false, false, "");
    assert!(matches!(&thinking[4].value, BodyValue::OutputEffort(e) if e == "max"));
}

#[test]
fn provider_test_openai_provider_construction() {
    let p = ProviderSettings::new("https://api.openai.com/v1".into(), "sk-test".into(), "gpt-4".into());
    assert_eq!(p.base_url, "https://api.openai.com/v1");
}
