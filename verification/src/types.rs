//! Conversation data: messages, tool calls, timed history entries, LLM
//! responses and streaming events.
use vstd::prelude::*;

use crate::text::owned;

verus! {

/// Wall-clock time of std; opaque to the proofs.
#[verifier::external_type_specification]
#[verifier::external_body]
pub struct ExSystemTime(std::time::SystemTime);

/// A JSON document of serde_json; opaque to the proofs.
#[verifier::external_type_specification]
#[verifier::external_body]
pub struct ExJsonValue(serde_json::Value);

/// A JSON object of serde_json; opaque to the proofs.
#[verifier::external_type_specification]
#[verifier::external_body]
#[verifier::reject_recursive_types(K)]
#[verifier::reject_recursive_types(V)]
pub struct ExJsonMap<K, V>(serde_json::Map<K, V>);

/// `serde_json::from_str::<Value>`: the JSON document of `s`, `None` when
/// `s` is not JSON.
pub uninterp spec fn spec_parse_json(s: Seq<char>) -> Option<serde_json::Value>;

/// Parses text as JSON with serde_json.
#[verifier::external_body]
pub(crate) fn parse_json(s: &str) -> (r: Option<serde_json::Value>)
    ensures
        r == spec_parse_json(s@),
{
    serde_json::from_str::<serde_json::Value>(s).ok()
}

/// `Value::to_string` (its `Display`): the compact JSON text of `v`.
pub uninterp spec fn spec_json_text(v: serde_json::Value) -> Seq<char>;

/// Renders a JSON document compactly with serde_json.
#[verifier::external_body]
pub(crate) fn json_text(v: &serde_json::Value) -> (r: String)
    ensures
        r@ == spec_json_text(*v),
{
    v.to_string()
}

/// `SystemTime::now`: the current wall-clock time. Nothing is promised of
/// the value, which depends on the clock.
#[verifier::external_body]
pub(crate) fn now() -> std::time::SystemTime {
    std::time::SystemTime::now()
}

/// `Duration::ZERO`: an empty span of time. The value is opaque here.
#[verifier::external_body]
pub(crate) fn zero_duration() -> std::time::Duration {
    std::time::Duration::ZERO
}

/// `<serde_json::Value as Clone>::clone` (derived): a copy of a JSON
/// document, equal to it.
#[verifier::external_body]
pub(crate) fn clone_json(v: &serde_json::Value) -> (r: serde_json::Value)
    ensures
        r == *v,
{
    v.clone()
}

// --- Messages ---

#[derive(Debug)]
pub struct SystemMessage {
    pub content: String,
}

#[derive(Debug)]
pub struct UserMessage {
    pub content: String,
}

#[derive(Debug)]
pub struct AssistantMessage {
    pub content: String,
    pub tool_calls: Option<Vec<ToolCall>>,
}

#[derive(Debug)]
pub struct ToolMessage {
    pub content: String,
    pub tool_call_id: String,
}

#[derive(Debug)]
pub enum Message {
    System(SystemMessage),
    User(UserMessage),
    Assistant(AssistantMessage),
    Tool(ToolMessage),
}

// --- Tool calls ---

#[derive(Debug)]
pub struct ToolCall {
    pub id: String,
    pub call_type: String,
    pub function: FunctionCall,
}

#[derive(Debug)]
pub struct FunctionCall {
    pub name: String,
    pub arguments: String,
}

// --- Timing ---

#[derive(Debug)]
pub struct TimedMessage {
    pub message: Message,
    pub timestamp: std::time::SystemTime,
    pub elapsed: std::time::Duration,
}

#[derive(Debug)]
pub struct ToolResult {
    pub tool_message: ToolMessage,
    pub timestamp: std::time::SystemTime,
    pub elapsed: std::time::Duration,
}

// --- Tool definitions ---

#[derive(Debug)]
pub struct ToolDefinition {
    pub tool_type: String,
    pub function: ToolFunction,
}

#[derive(Debug)]
pub struct ToolFunction {
    pub name: String,
    pub description: String,
    pub parameters: Parameters,
}

/// A JSON schema describing a tool's arguments.
#[derive(Debug)]
pub struct Parameters(serde_json::Value);

// --- LLM response ---

#[derive(Debug)]
pub enum FinishReason {
    Stop,
    Length,
    ToolCalls,
    ContentFilter,
    Custom(String),
}

#[derive(Debug, Clone, Copy)]
pub struct TokenUsage {
    pub prompt_tokens: u32,
    pub completion_tokens: u32,
    pub total_tokens: u32,
}

#[derive(Debug)]
pub struct LLMResponse {
    pub message: AssistantMessage,
    pub finish_reason: FinishReason,
    pub usage: Option<TokenUsage>,
}

// --- Streaming ---

/// Events emitted during a streaming LLM response.
#[derive(Debug)]
pub enum StreamEvent {
    /// Text content delta.
    Content(String),
    /// Reasoning content delta (thinking mode).
    Thinking(String),
    /// Streaming has finished with the given reason.
    Finish(FinishReason),
}

// --- Views ---

/// What an assistant message holds, with its tool calls as a sequence.
pub struct AssistantView {
    pub content: Seq<char>,
    pub tool_calls: Option<Seq<ToolCall>>,
}

/// What a message holds, kind by kind.
pub enum MessageView {
    System(Seq<char>),
    User(Seq<char>),
    Assistant(AssistantView),
    Tool { content: Seq<char>, tool_call_id: Seq<char> },
}

/// What a timed message holds.
pub struct TimedView {
    pub message: MessageView,
    pub timestamp: std::time::SystemTime,
    pub elapsed: std::time::Duration,
}

impl View for AssistantMessage {
    type V = AssistantView;

    open spec fn view(&self) -> AssistantView {
        AssistantView {
            content: self.content@,
            tool_calls: match self.tool_calls {
                Some(v) => Some(v@),
                None => None,
            },
        }
    }
}

impl View for Message {
    type V = MessageView;

    open spec fn view(&self) -> MessageView {
        match self {
            Message::System(m) => MessageView::System(m.content@),
            Message::User(m) => MessageView::User(m.content@),
            Message::Assistant(m) => MessageView::Assistant(m@),
            Message::Tool(m) => MessageView::Tool {
                content: m.content@,
                tool_call_id: m.tool_call_id@,
            },
        }
    }
}

impl View for TimedMessage {
    type V = TimedView;

    open spec fn view(&self) -> TimedView {
        TimedView { message: self.message@, timestamp: self.timestamp, elapsed: self.elapsed }
    }
}

// --- Spec helpers ---

/// The message is a system message.
pub open spec fn is_system(m: Message) -> bool {
    m is System
}

/// The message is a tool result.
pub open spec fn is_tool(m: Message) -> bool {
    m is Tool
}

// --- Constructors ---

impl Message {
    /// A system message with the given content.
    pub fn system(content: &str) -> (m: Self)
        ensures
            m matches Message::System(s) && s.content@ == content@,
    {
        Message::System(SystemMessage { content: owned(content) })
    }

    /// A user message with the given content.
    pub fn user(content: &str) -> (m: Self)
        ensures
            m matches Message::User(u) && u.content@ == content@,
    {
        Message::User(UserMessage { content: owned(content) })
    }

    /// Is this a system message?
    pub fn is_system(&self) -> (b: bool)
        ensures
            b == is_system(*self),
    {
        match self {
            Message::System(_) => true,
            _ => false,
        }
    }

    /// Is this a tool-result message?
    pub fn is_tool(&self) -> (b: bool)
        ensures
            b == is_tool(*self),
    {
        match self {
            Message::Tool(_) => true,
            _ => false,
        }
    }
}

impl TimedMessage {
    /// Stamps a message with the current time and a zero elapsed span.
    pub fn new(message: Message) -> (t: Self)
        ensures
            t.message == message,
    {
        TimedMessage { message, timestamp: now(), elapsed: zero_duration() }
    }
}

impl Parameters {
    /// The schema held.
    pub closed spec fn schema_value(&self) -> serde_json::Value {
        self.0
    }

    pub fn new(schema: serde_json::Value) -> (p: Self)
        ensures
            p.schema_value() == schema,
    {
        Parameters(schema)
    }

    /// The JSON schema.
    pub fn schema(&self) -> (v: &serde_json::Value)
        ensures
            *v == self.schema_value(),
    {
        &self.0
    }
}

impl ToolDefinition {
    /// A `"function"` tool definition.
    pub fn new(name: &str, description: &str, parameters: Parameters) -> (d: Self)
        ensures
            d.tool_type@ == "function"@,
            d.function.name@ == name@,
            d.function.description@ == description@,
            d.function.parameters == parameters,
    {
        ToolDefinition {
            tool_type: owned("function"),
            function: ToolFunction {
                name: owned(name),
                description: owned(description),
                parameters,
            },
        }
    }
}

// --- Clones that keep every field ---

impl Clone for SystemMessage {
    fn clone(&self) -> (r: Self)
        ensures
            r == *self,
    {
        SystemMessage { content: self.content.clone() }
    }
}

impl Clone for UserMessage {
    fn clone(&self) -> (r: Self)
        ensures
            r == *self,
    {
        UserMessage { content: self.content.clone() }
    }
}

impl Clone for ToolMessage {
    fn clone(&self) -> (r: Self)
        ensures
            r == *self,
    {
        ToolMessage { content: self.content.clone(), tool_call_id: self.tool_call_id.clone() }
    }
}

impl Clone for FunctionCall {
    fn clone(&self) -> (r: Self)
        ensures
            r == *self,
    {
        FunctionCall { name: self.name.clone(), arguments: self.arguments.clone() }
    }
}

impl Clone for ToolCall {
    fn clone(&self) -> (r: Self)
        ensures
            r == *self,
    {
        ToolCall {
            id: self.id.clone(),
            call_type: self.call_type.clone(),
            function: self.function.clone(),
        }
    }
}

/// A copy of a list of tool calls, equal to it.
pub fn clone_calls(v: &Vec<ToolCall>) -> (r: Vec<ToolCall>)
    ensures
        r@ == v@,
{
    let mut r: Vec<ToolCall> = Vec::new();
    let mut i: usize = 0;
    while i < v.len()
        invariant
            i <= v.len(),
            r@ == v@.take(i as int),
        decreases v.len() - i,
    {
        r.push(v[i].clone());
        assert(v@.take(i + 1) == v@.take(i as int).push(v@[i as int]));
        i = i + 1;
    }
    assert(v@.take(v.len() as int) == v@);
    r
}

impl Clone for AssistantMessage {
    fn clone(&self) -> (r: Self)
        ensures
            r@ == self@,
    {
        let tool_calls = match &self.tool_calls {
            Some(v) => Some(clone_calls(v)),
            None => None,
        };
        AssistantMessage { content: self.content.clone(), tool_calls }
    }
}

impl Clone for Message {
    fn clone(&self) -> (r: Self)
        ensures
            r@ == self@,
    {
        match self {
            Message::System(m) => Message::System(m.clone()),
            Message::User(m) => Message::User(m.clone()),
            Message::Assistant(m) => Message::Assistant(m.clone()),
            Message::Tool(m) => Message::Tool(m.clone()),
        }
    }
}

impl Clone for TimedMessage {
    fn clone(&self) -> (r: Self)
        ensures
            r@ == self@,
    {
        TimedMessage {
            message: self.message.clone(),
            timestamp: self.timestamp,
            elapsed: self.elapsed,
        }
    }
}

impl Clone for ToolResult {
    fn clone(&self) -> (r: Self)
        ensures
            r == *self,
    {
        ToolResult {
            tool_message: self.tool_message.clone(),
            timestamp: self.timestamp,
            elapsed: self.elapsed,
        }
    }
}

impl Clone for FinishReason {
    fn clone(&self) -> (r: Self)
        ensures
            r == *self,
    {
        match self {
            FinishReason::Stop => FinishReason::Stop,
            FinishReason::Length => FinishReason::Length,
            FinishReason::ToolCalls => FinishReason::ToolCalls,
            FinishReason::ContentFilter => FinishReason::ContentFilter,
            FinishReason::Custom(s) => FinishReason::Custom(s.clone()),
        }
    }
}

impl Clone for LLMResponse {
    fn clone(&self) -> (r: Self)
        ensures
            r.message@ == self.message@,
            r.finish_reason == self.finish_reason,
            r.usage == self.usage,
    {
        LLMResponse {
            message: self.message.clone(),
            finish_reason: self.finish_reason.clone(),
            usage: self.usage,
        }
    }
}

impl Clone for StreamEvent {
    fn clone(&self) -> (r: Self)
        ensures
            r == *self,
    {
        match self {
            StreamEvent::Content(s) => StreamEvent::Content(s.clone()),
            StreamEvent::Thinking(s) => StreamEvent::Thinking(s.clone()),
            StreamEvent::Finish(f) => StreamEvent::Finish(f.clone()),
        }
    }
}

impl Clone for Parameters {
    fn clone(&self) -> (r: Self)
        ensures
            r == *self,
    {
        Parameters(clone_json(&self.0))
    }
}

impl Clone for ToolFunction {
    fn clone(&self) -> (r: Self)
        ensures
            r == *self,
    {
        ToolFunction {
            name: self.name.clone(),
            description: self.description.clone(),
            parameters: self.parameters.clone(),
        }
    }
}

impl Clone for ToolDefinition {
    fn clone(&self) -> (r: Self)
        ensures
            r == *self,
    {
        ToolDefinition { tool_type: self.tool_type.clone(), function: self.function.clone() }
    }
}

/// A copy of a list of timed messages, entry by entry equal to it.
pub fn clone_timed(v: &[TimedMessage]) -> (r: Vec<TimedMessage>)
    ensures
        r@.len() == v@.len(),
        forall|i: int| 0 <= i < v@.len() ==> #[trigger] r@[i]@ == v@[i]@,
{
    let mut r: Vec<TimedMessage> = Vec::new();
    let mut i: usize = 0;
    while i < v.len()
        invariant
            i <= v.len(),
            r@.len() == i,
            forall|k: int| 0 <= k < i ==> #[trigger] r@[k]@ == v@[k]@,
        decreases v.len() - i,
    {
        r.push(v[i].clone());
        i = i + 1;
    }
    r
}

} // verus!
