use motif::agent::{
    assistant_entry, chat_message, continue_message, fallback_content, normalize_json, tool_result_entry,
    AgentCore, Recovery, StopCondition, MAX_RECENT_CALLS,
};
use motif::history::{History, InfiniteHistory};
use motif::types::{
    AssistantMessage, FinishReason, FunctionCall, LLMResponse, Message, TimedMessage, TokenUsage, ToolCall,
    ToolMessage, ToolResult,
};
use std::time::{Duration, SystemTime};

fn reply(content: &str, finish: FinishReason) -> LLMResponse {
    LLMResponse { message: AssistantMessage { content: content.into(), tool_calls: None }, finish_reason: finish, usage: None }
}

fn call(name: &str, args: &str) -> ToolCall {
    ToolCall { id: "c".into(), call_type: "function".into(), function: FunctionCall { name: name.into(), arguments: args.into() } }
}

fn tool_msg() -> TimedMessage {
    TimedMessage::new(Message::Tool(ToolMessage { content: "ok".into(), tool_call_id: "c".into() }))
}

#[test]
fn stop_on_text_and_never() {
    let text = reply("hi", FinishReason::Stop);
    let mut tools = reply("", FinishReason::ToolCalls);
    tools.message.tool_calls = Some(vec![call("t", "{}")]);
    assert!(StopCondition::OnText.should_stop(&text, &[], &[], false));
    assert!(!StopCondition::OnText.should_stop(&tools, &[], &[], false));
    // What counts is whether the reply carries tool calls, not its finish reason.
    let mut calls_with_stop = reply("calling", FinishReason::Stop);
    calls_with_stop.message.tool_calls = Some(vec![call("t", "{}")]);
    assert!(!StopCondition::OnText.should_stop(&calls_with_stop, &[], &[], false));
    let mut empty_list = reply("done", FinishReason::ToolCalls);
    empty_list.message.tool_calls = Some(vec![]);
    assert!(StopCondition::OnText.should_stop(&empty_list, &[], &[], false));
    assert!(!StopCondition::Never.should_stop(&text, &[], &[], true));
    assert!(StopCondition::Custom.should_stop(&tools, &[], &[], true));
    assert!(!StopCondition::Custom.should_stop(&text, &[], &[], false));
    assert!(matches!(StopCondition::default(), StopCondition::OnText));
}

#[test]
fn stop_after_n_tool_results() {
    let r = reply("", FinishReason::ToolCalls);
    let one = vec![TimedMessage::new(Message::user("u")), tool_msg()];
    let two = vec![tool_msg(), TimedMessage::new(Message::user("u")), tool_msg()];
    assert!(!StopCondition::AfterNTools(2).should_stop(&r, &one, &[], false));
    assert!(StopCondition::AfterNTools(2).should_stop(&r, &two, &[], false));
}

#[test]
fn stop_when_stuck() {
    let r = reply("", FinishReason::ToolCalls);
    let same: Vec<String> = vec!["a:1".into(), "p:1".into(), "p:1".into(), "p:1".into()];
    assert!(StopCondition::OnStuck { max_repeats: 3 }.should_stop(&r, &[], &same, false));
    assert!(!StopCondition::OnStuck { max_repeats: 4 }.should_stop(&r, &[], &same, false));
    // A window below two still needs two equal calls.
    assert!(!StopCondition::OnStuck { max_repeats: 1 }.should_stop(&r, &[], &["p:1".to_string()], false));
    assert!(StopCondition::OnStuck { max_repeats: 0 }.should_stop(&r, &[], &same, false));
}

#[test]
fn json_arguments_are_normalized() {
    assert_eq!(normalize_json("{ \"a\" : 1 }"), "{\"a\":1}");
    assert_eq!(normalize_json("not json"), "not json");
}

#[test]
fn core_defaults_and_settings() {
    let mut core = AgentCore::new();
    assert_eq!(core.model(), "");
    assert_eq!(core.step_count(), 0);
    assert_eq!(core.total_tokens_used(), 0);
    assert!(core.iterations_exhausted(100));
    assert!(!core.iterations_exhausted(99));
    core.set_max_iterations(0);
    assert!(!core.iterations_exhausted(1_000_000));
    core.set_model("m1");
    assert_eq!(core.model(), "m1");
    core.set_stop_condition(StopCondition::Never);
    assert!(matches!(core.stop_condition(), StopCondition::Never));
}

#[test]
fn core_builds_turns_and_counts() {
    let mut core = AgentCore::new();
    core.set_tools_json("[]");
    let mut h = InfiniteHistory::new();
    h.add(TimedMessage::new(Message::user("hello")));
    let turn = core.begin_step(&h, &vec!["ext".to_string()]);
    assert_eq!(turn.len(), 2);
    match &turn[0] {
        Message::System(s) => {
            assert!(s.content.starts_with("## Meta\n"));
            assert!(s.content.ends_with("\n\next"));
            assert!(!s.content.contains("## Available Tools"));
        }
        _ => panic!("expected the system prompt first"),
    }
    assert!(matches!(&turn[1], Message::User(u) if u.content == "hello"));
    assert_eq!(core.step_count(), 1);
    let mut r = reply("x", FinishReason::Stop);
    r.usage = Some(TokenUsage { prompt_tokens: 1, completion_tokens: 2, total_tokens: 3 });
    core.record_usage(&r);
    core.record_usage(&reply("y", FinishReason::Stop));
    assert_eq!(core.total_tokens_used(), 3);
}

#[test]
fn core_keeps_the_newest_signatures() {
    let mut core = AgentCore::new();
    let calls: Vec<ToolCall> = (0..25).map(|i| call("t", &format!("{{ \"n\": {} }}", i))).collect();
    core.record_tool_calls(&calls);
    let recent = core.recent_tool_calls();
    assert_eq!(recent.len(), MAX_RECENT_CALLS);
    assert_eq!(recent[0], "t:{\"n\":5}");
    assert_eq!(recent[19], "t:{\"n\":24}");
}

#[test]
fn length_continuations_are_limited() {
    let mut core = AgentCore::new();
    let cut = reply("part", FinishReason::Length);
    assert_eq!(core.try_recover(&cut), Recovery::ContinueLength);
    assert_eq!(core.try_recover(&cut), Recovery::ContinueLength);
    assert_eq!(core.try_recover(&cut), Recovery::ContinueLength);
    assert_eq!(core.try_recover(&cut), Recovery::Proceed);
    assert_eq!(core.try_recover(&reply("done", FinishReason::Stop)), Recovery::Proceed);
    assert_eq!(core.try_recover(&cut), Recovery::ContinueLength);
}

#[test]
fn empty_replies_are_retried_twice() {
    let mut core = AgentCore::new();
    let empty = reply("  ", FinishReason::Stop);
    assert_eq!(core.try_recover(&empty), Recovery::RetryEmpty);
    assert_eq!(core.try_recover(&empty), Recovery::RetryEmpty);
    assert_eq!(core.try_recover(&empty), Recovery::Proceed);
    assert_eq!(core.try_recover(&reply("finally", FinishReason::Stop)), Recovery::Proceed);
    assert_eq!(core.try_recover(&empty), Recovery::RetryEmpty);
    let mut with_tools = reply("", FinishReason::ToolCalls);
    with_tools.message.tool_calls = Some(vec![call("t", "{}")]);
    assert_eq!(AgentCore::new().try_recover(&with_tools), Recovery::Proceed);
}

#[test]
fn history_entries_and_fallback() {
    assert!(matches!(continue_message().message, Message::User(u) if u.content == "continue"));
    let r = reply("answer", FinishReason::Stop);
    let e = assistant_entry(&r, Duration::from_millis(5));
    assert!(matches!(&e.message, Message::Assistant(a) if a.content == "answer"));
    assert_eq!(e.elapsed, Duration::from_millis(5));
    let t = tool_result_entry(ToolResult {
        tool_message: ToolMessage { content: "out".into(), tool_call_id: "c9".into() },
        timestamp: SystemTime::UNIX_EPOCH,
        elapsed: Duration::from_secs(1),
    });
    assert!(matches!(&t.message, Message::Tool(m) if m.tool_call_id == "c9"));
    assert_eq!(t.timestamp, SystemTime::UNIX_EPOCH);
    assert_eq!(fallback_content(&[]), "Max iterations reached");
    let h = vec![e, TimedMessage::new(Message::user("later"))];
    assert_eq!(fallback_content(&h), "answer");
}

#[test]
fn chat_message_prepends_context() {
    assert_eq!(chat_message("CTX", "hello"), "CTX\nhello");
    assert_eq!(chat_message("CTX", ""), "CTX");
}
