use motif::agent::{
    assistant_entry, hooks_allow, step_outcome, AgentCore, Recovery, RunAction, StopCondition,
};
use motif::error::Error;
use motif::history::{BoundedHistory, History, InfiniteHistory};
use motif::types::{
    AssistantMessage, FinishReason, FunctionCall, LLMResponse, Message, TimedMessage, TokenUsage, ToolCall,
    ToolMessage, ToolResult,
};
use std::time::{Duration, SystemTime};

fn reply(content: &str, finish: FinishReason) -> LLMResponse {
    LLMResponse { message: AssistantMessage { content: content.into(), tool_calls: None }, finish_reason: finish, usage: None }
}

fn call(id: &str, name: &str, args: &str) -> ToolCall {
    ToolCall { id: id.into(), call_type: "function".into(), function: FunctionCall { name: name.into(), arguments: args.into() } }
}

fn result(id: &str, content: &str) -> ToolResult {
    ToolResult {
        tool_message: ToolMessage { content: content.into(), tool_call_id: id.into() },
        timestamp: SystemTime::UNIX_EPOCH,
        elapsed: Duration::from_millis(1),
    }
}

fn user_text(m: &TimedMessage) -> Option<&str> {
    match &m.message {
        Message::User(u) => Some(u.content.as_str()),
        _ => None,
    }
}

#[test]
fn refusal_needs_an_explicit_false() {
    assert!(hooks_allow(&vec![]));
    assert!(hooks_allow(&vec![Ok(true), Ok(true)]));
    assert!(!hooks_allow(&vec![Ok(true), Ok(false)]));
    // A hook that fails refuses nothing.
    assert!(hooks_allow(&vec![Err(Error::Custom("boom".into())), Ok(true)]));
    assert!(!hooks_allow(&vec![Err(Error::Custom("boom".into())), Ok(false)]));
}

#[test]
fn stop_checks_can_cancel_a_stop() {
    let r = reply("final answer", FinishReason::Stop);
    assert_eq!(step_outcome(&r, true, &vec![]), Some("final answer".to_string()));
    assert_eq!(step_outcome(&r, true, &vec![Ok(true), Err(Error::Http("x".into()))]), Some("final answer".to_string()));
    assert_eq!(step_outcome(&r, true, &vec![Ok(true), Ok(false)]), None);
    // A hook cannot force a stop the condition did not call for.
    assert_eq!(step_outcome(&r, false, &vec![Ok(true)]), None);
}

#[test]
fn kept_reply_enters_history_and_calls_come_back() {
    let mut core = AgentCore::new();
    let mut h = InfiniteHistory::new();
    h.add(TimedMessage::new(Message::user("hi")));
    let mut r = reply("", FinishReason::ToolCalls);
    r.message.tool_calls = Some(vec![call("c1", "ping", "{ \"n\": 1 }"), call("c2", "ping", "{}")]);
    r.usage = Some(TokenUsage { prompt_tokens: 4, completion_tokens: 3, total_tokens: 7 });
    let entry = assistant_entry(&r, Duration::from_millis(2));
    let calls = core.after_reply(&mut h, &r, entry, true);
    assert_eq!(calls.len(), 2);
    assert_eq!(calls[0].id, "c1");
    assert_eq!(calls[1].id, "c2");
    assert_eq!(h.get_all().len(), 2);
    assert!(matches!(&h.get_all()[1].message, Message::Assistant(_)));
    assert_eq!(core.total_tokens_used(), 7);
    assert_eq!(core.recent_tool_calls().to_vec(), vec!["ping:{\"n\":1}".to_string(), "ping:{}".to_string()]);
}

#[test]
fn refused_reply_stays_out_of_history() {
    let mut core = AgentCore::new();
    let mut h = InfiniteHistory::new();
    h.add(TimedMessage::new(Message::user("hi")));
    let r = reply("secret", FinishReason::Stop);
    let entry = assistant_entry(&r, Duration::from_millis(2));
    let calls = core.after_reply(&mut h, &r, entry, false);
    assert!(calls.is_empty());
    assert_eq!(h.get_all().len(), 1);
    assert!(core.recent_tool_calls().is_empty());
}

#[test]
fn tool_results_follow_call_order() {
    let mut core = AgentCore::new();
    let mut h = InfiniteHistory::new();
    let mut r = reply("", FinishReason::ToolCalls);
    r.message.tool_calls = Some(vec![call("a", "t", "{}"), call("b", "t", "{}")]);
    let rec = core.finish_step(&mut h, &r, vec![result("a", "first"), result("b", "second")]);
    assert_eq!(rec, Recovery::Proceed);
    let all = h.get_all();
    assert_eq!(all.len(), 2);
    assert!(matches!(&all[0].message, Message::Tool(m) if m.tool_call_id == "a" && m.content == "first"));
    assert!(matches!(&all[1].message, Message::Tool(m) if m.tool_call_id == "b" && m.content == "second"));
}

#[test]
fn truncated_reply_gets_continue_after_results() {
    let mut core = AgentCore::new();
    let mut h = InfiniteHistory::new();
    let r = reply("half of it", FinishReason::Length);
    let rec = core.finish_step(&mut h, &r, vec![result("a", "out")]);
    assert_eq!(rec, Recovery::ContinueLength);
    let all = h.get_all();
    assert_eq!(all.len(), 2);
    assert!(matches!(&all[0].message, Message::Tool(_)));
    assert_eq!(user_text(&all[1]), Some("continue"));
    // An empty reply is retried without adding anything.
    let mut h2 = InfiniteHistory::new();
    assert_eq!(AgentCore::new().finish_step(&mut h2, &reply(" ", FinishReason::Stop), vec![]), Recovery::RetryEmpty);
    assert!(h2.get_all().is_empty());
}

#[test]
fn capped_store_still_takes_the_step() {
    let mut core = AgentCore::new();
    let mut h = BoundedHistory::new(2);
    h.add(TimedMessage::new(Message::user("old")));
    let r = reply("", FinishReason::ToolCalls);
    core.finish_step(&mut h, &r, vec![result("a", "one"), result("b", "two")]);
    let all = h.get_all();
    assert_eq!(all.len(), 2);
    assert!(matches!(&all[0].message, Message::Tool(m) if m.tool_call_id == "a"));
    assert!(matches!(&all[1].message, Message::Tool(m) if m.tool_call_id == "b"));
}

#[test]
fn run_gives_up_at_the_cap() {
    let mut core = AgentCore::new();
    core.set_max_iterations(2);
    core.set_stop_condition(StopCondition::Never);
    let h = vec![
        assistant_entry(&reply("draft", FinishReason::Stop), Duration::ZERO),
        TimedMessage::new(Message::user("more")),
    ];
    assert!(matches!(core.run_action(1, &h), RunAction::Step));
    assert!(matches!(core.run_action(2, &h), RunAction::GiveUp(t) if t == "draft"));
    assert!(matches!(core.run_action(2, &[]), RunAction::GiveUp(t) if t == "Max iterations reached"));
    core.set_max_iterations(0);
    assert!(matches!(core.run_action(5_000, &h), RunAction::Step));
}
