//! State that lifecycle hooks see: per iteration and per run.
use vstd::prelude::*;

use crate::error::Error;
use crate::types::{LLMResponse, TimedMessage, ToolCall, ToolResult};

verus! {

/// Per-iteration state exposed to hooks.
#[derive(Debug, Clone)]
pub struct HookContext {
    pub iteration: usize,
    pub messages: Vec<TimedMessage>,
    pub response: Option<LLMResponse>,
    pub tool_calls: Vec<ToolCall>,
    pub tool_results: Vec<ToolResult>,
    pub final_content: Option<String>,
    pub stop_reason: Option<String>,
}

impl HookContext {
    /// A context for `iteration` over `messages`, with nothing else set yet.
    pub fn new(iteration: usize, messages: Vec<TimedMessage>) -> (c: Self)
        ensures
            c.iteration == iteration,
            c.messages == messages,
            c.response is None,
            c.tool_calls@.len() == 0,
            c.tool_results@.len() == 0,
            c.final_content is None,
            c.stop_reason is None,
    {
        HookContext {
            iteration,
            messages,
            response: None,
            tool_calls: Vec::new(),
            tool_results: Vec::new(),
            final_content: None,
            stop_reason: None,
        }
    }
}

/// Run-level state exposed to hooks.
#[derive(Debug, Clone)]
pub struct RunContext {
    pub final_content: Option<String>,
    pub stop_reason: Option<String>,
    pub error: Option<Error>,
}

impl RunContext {
    /// A context with nothing set yet.
    pub fn new() -> (c: Self)
        ensures
            c.final_content is None,
            c.stop_reason is None,
            c.error is None,
    {
        RunContext { final_content: None, stop_reason: None, error: None }
    }
}

impl Default for RunContext {
    fn default() -> (c: Self)
        ensures
            c.final_content is None,
            c.stop_reason is None,
            c.error is None,
    {
        Self::new()
    }
}

} // verus!
