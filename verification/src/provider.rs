//! The provider protocol's logic: endpoints and credentials, the retry
//! policy for transient failures, the mapping of OpenAI- and
//! Anthropic-style replies to `LLMResponse`, the Anthropic request layout,
//! and the framing of server-sent event streams.
//!
//! Sending requests and (de)serialising JSON happen around these functions.
use vstd::prelude::*;

use crate::error::Error;
use crate::text::{has_prefix, owned, push_str, seq_join, spec_trim, starts_with, trim, views};
use crate::types::{
    parse_json, spec_parse_json, AssistantMessage, FinishReason, FunctionCall, LLMResponse, Message, StreamEvent, TokenUsage,
    ToolCall,
};

verus! {

/// Which API protocol the provider uses. DeepSeek supports both.
#[derive(Debug, Clone, Copy, PartialEq, Eq, Structural)]
pub enum ApiFormat {
    /// OpenAI `/v1/chat/completions` (default)
    OpenAI,
    /// Anthropic `/messages` — DeepSeek at `/anthropic/messages`
    Anthropic,
}

/// The URL that requests of a format are posted to.
pub open spec fn endpoint_text(base: Seq<char>, format: ApiFormat) -> Seq<char> {
    match format {
        ApiFormat::Anthropic => base + "/messages"@,
        ApiFormat::OpenAI => base + "/chat/completions"@,
    }
}

/// The URL that requests are posted to.
pub fn endpoint_url(base_url: &str, format: ApiFormat) -> (r: String)
    ensures
        r@ == endpoint_text(base_url@, format),
{
    let mut r = owned(base_url);
    match format {
        ApiFormat::Anthropic => push_str(&mut r, "/messages"),
        ApiFormat::OpenAI => push_str(&mut r, "/chat/completions"),
    }
    r
}

/// The header that carries the API key: `x-api-key` for Anthropic, a
/// bearer `Authorization` for OpenAI.
pub fn auth_header(format: ApiFormat, api_key: &str) -> (h: (&'static str, String))
    ensures
        format == ApiFormat::Anthropic ==> h.0@ == "x-api-key"@ && h.1@ == api_key@,
        format == ApiFormat::OpenAI ==> h.0@ == "Authorization"@ && h.1@ == "Bearer "@ + api_key@,
{
    match format {
        ApiFormat::Anthropic => ("x-api-key", owned(api_key)),
        ApiFormat::OpenAI => {
            let mut v = owned("Bearer ");
            push_str(&mut v, api_key);
            ("Authorization", v)
        },
    }
}

// ---------------------------------------------------------------------------
// Retry policy
// ---------------------------------------------------------------------------

/// Is an HTTP status worth retrying? Rate limiting and server errors are.
pub open spec fn is_retryable(status: u16) -> bool {
    status == 429 || status >= 500
}

/// Which rejections are retried: rate limiting (429) and every server
/// error (500 and up, so all of 500 to 599); every other client error
/// (400 to 499 but 429) fails at once.
pub proof fn law_retry_server_errors_and_rate_limits(status: u16)
    ensures
        status == 429 ==> is_retryable(status),
        500 <= status <= 599 ==> is_retryable(status),
        600 <= status ==> is_retryable(status),
        400 <= status <= 499 && status != 429 ==> !is_retryable(status),
{
}

/// How one attempt to post a request went.
#[derive(Debug)]
pub enum Attempt {
    /// The request could not be sent (transport failure).
    Failed(Error),
    /// The server answered with a non-success status and this body.
    Rejected { status: u16, body: String },
    /// The server answered with a success status.
    Succeeded,
}

/// What to do after an attempt.
#[derive(Debug)]
pub enum RetryDecision {
    /// Try again (if attempts remain).
    Retry,
    /// Use the response.
    Succeed,
    /// Give up with this error.
    Fail(Error),
}

/// Posting with retries: up to `max_retries` retries after the first
/// attempt, the `k`-th retry after a pause of `k` times the base delay.
/// Transport failures and retryable statuses are retried; any other
/// non-success status fails at once.
pub struct RetryPolicy {
    max_retries: usize,
    delay_ms: u64,
    attempt: usize,
    exhausted: bool,
    last_err: Option<Error>,
}

impl RetryPolicy {
    #[verifier::type_invariant]
    spec fn attempts_in_range(self) -> bool {
        self.attempt <= self.max_retries
    }

    /// Retries allowed after the first attempt.
    pub closed spec fn retries(&self) -> nat {
        self.max_retries as nat
    }

    /// The base delay in milliseconds.
    pub closed spec fn base_delay(&self) -> nat {
        self.delay_ms as nat
    }

    /// Attempts made so far.
    pub closed spec fn attempts_made(&self) -> nat {
        if self.exhausted {
            self.max_retries as nat + 1
        } else if self.attempt <= self.max_retries {
            self.attempt as nat
        } else {
            self.max_retries as nat
        }
    }

    /// The error of the last failed attempt, if any.
    pub closed spec fn last_error(&self) -> Option<Error> {
        self.last_err
    }

    pub fn new(max_retries: usize, delay_ms: u64) -> (p: Self)
        ensures
            p.retries() == max_retries,
            p.base_delay() == delay_ms,
            p.attempts_made() == 0,
            p.last_error() is None,
    {
        RetryPolicy { max_retries, delay_ms, attempt: 0, exhausted: false, last_err: None }
    }

    /// Is another attempt allowed?
    pub fn has_attempt(&self) -> (b: bool)
        ensures
            b == (self.attempts_made() <= self.retries()),
    {
        proof { use_type_invariant(self); }
        !self.exhausted
    }

    /// The pause before the next attempt: none before the first, `k` times
    /// the base delay before the `k`-th retry; `None` when that product
    /// does not fit in a `u64`.
    pub fn delay_before(&self) -> (ms: Option<u64>)
        requires
            self.attempts_made() <= self.retries(),
        ensures
            self.base_delay() * self.attempts_made() <= u64::MAX ==> ms == Some(
                (self.base_delay() * self.attempts_made()) as u64,
            ),
            self.base_delay() * self.attempts_made() > u64::MAX ==> ms is None,
    {
        proof { use_type_invariant(self); }
        self.delay_ms.checked_mul(self.attempt as u64)
    }

    /// Records how an attempt went and says what to do next.
    pub fn after_attempt(&mut self, outcome: Attempt) -> (d: RetryDecision)
        requires
            old(self).attempts_made() <= old(self).retries(),
        ensures
            final(self).retries() == old(self).retries(),
            final(self).base_delay() == old(self).base_delay(),
            final(self).attempts_made() == old(self).attempts_made() + 1,
            match outcome {
                Attempt::Succeeded => d is Succeed,
                Attempt::Failed(e) => d is Retry && final(self).last_error() == Some(e),
                Attempt::Rejected { status, body } => if is_retryable(status) {
                    d is Retry && final(self).last_error() == Some(
                        Error::ApiError { status, body },
                    )
                } else {
                    d == RetryDecision::Fail(Error::ApiError { status, body })
                },
            },
    {
        proof { use_type_invariant(&*self); }
        if self.attempt < self.max_retries {
            self.attempt = self.attempt + 1;
        } else {
            self.exhausted = true;
        }
        match outcome {
            Attempt::Succeeded => RetryDecision::Succeed,
            Attempt::Failed(e) => {
                self.last_err = Some(e);
                RetryDecision::Retry
            },
            Attempt::Rejected { status, body } => {
                if status == 429 || status >= 500 {
                    self.last_err = Some(Error::ApiError { status, body });
                    RetryDecision::Retry
                } else {
                    RetryDecision::Fail(Error::ApiError { status, body })
                }
            },
        }
    }

    /// The error once every attempt failed: the last failure, or a notice
    /// that the retries ran out.
    pub fn into_error(self) -> (e: Error)
        ensures
            match self.last_error() {
                Some(l) => e == l,
                None => e matches Error::Custom(m) && m@ == "max retries exhausted"@,
            },
    {
        match self.last_err {
            Some(e) => e,
            None => Error::Custom(owned("max retries exhausted")),
        }
    }
}

/// However the attempts go, a policy never counts more than
/// `max_retries + 1` of them: once they are all made, `has_attempt` is
/// false.
pub proof fn law_retry_budget(p: RetryPolicy)
    ensures
        p.attempts_made() <= p.retries() + 1,
{
}

// ---------------------------------------------------------------------------
// Replies of the OpenAI-style API
// ---------------------------------------------------------------------------

/// A reply of `/chat/completions`, as decoded from its JSON body.
#[derive(Debug)]
pub struct ChatResponse {
    pub choices: Vec<ChatChoice>,
    pub usage: Option<ChatUsage>,
}

#[derive(Debug)]
pub struct ChatChoice {
    pub message: ChatMessage,
    pub finish_reason: Option<String>,
}

#[derive(Debug)]
pub struct ChatMessage {
    pub content: Option<String>,
    pub tool_calls: Option<Vec<ChatToolCall>>,
}

#[derive(Debug)]
pub struct ChatToolCall {
    pub id: String,
    pub call_type: String,
    pub function: ChatFunctionCall,
}

#[derive(Debug)]
pub struct ChatFunctionCall {
    pub name: String,
    pub arguments: String,
}

#[derive(Debug, Clone, Copy)]
pub struct ChatUsage {
    pub prompt_tokens: u32,
    pub completion_tokens: u32,
    pub total_tokens: u32,
}

/// The finish reason of a reply: the four known names map to their
/// variants, any other name is kept as `Custom`, and a missing one means
/// `Stop`.
pub open spec fn finish_matches(r: Option<Seq<char>>, f: FinishReason) -> bool {
    match r {
        None => f is Stop,
        Some(s) => if s == "stop"@ {
            f is Stop
        } else if s == "length"@ {
            f is Length
        } else if s == "tool_calls"@ {
            f is ToolCalls
        } else if s == "content_filter"@ {
            f is ContentFilter
        } else {
            f matches FinishReason::Custom(c) && c@ == s
        },
    }
}

fn finish_from_name(name: &Option<String>) -> (f: FinishReason)
    ensures
        finish_matches(
            match name {
                Some(s) => Some(s@),
                None => None,
            },
            f,
        ),
{
    match name {
        None => FinishReason::Stop,
        Some(s) => {
            if *s == owned("stop") {
                FinishReason::Stop
            } else if *s == owned("length") {
                FinishReason::Length
            } else if *s == owned("tool_calls") {
                FinishReason::ToolCalls
            } else if *s == owned("content_filter") {
                FinishReason::ContentFilter
            } else {
                FinishReason::Custom(s.clone())
            }
        },
    }
}

/// The tool call that a reply's tool call becomes.
pub open spec fn tool_call_of(c: ChatToolCall) -> ToolCall {
    ToolCall {
        id: c.id,
        call_type: c.call_type,
        function: FunctionCall { name: c.function.name, arguments: c.function.arguments },
    }
}

/// The reply mapped to an `LLMResponse`: its first choice's content (empty
/// if absent), tool calls and finish reason, and the reported usage.
pub open spec fn parsed_reply(resp: ChatResponse, r: LLMResponse) -> bool {
    let choice = resp.choices@[0];
    &&& r.message.content@ == match choice.message.content {
        Some(c) => c@,
        None => Seq::<char>::empty(),
    }
    &&& match choice.message.tool_calls {
        None => r.message.tool_calls is None,
        Some(v) => r.message.tool_calls matches Some(w) && w@ == v@.map_values(
            |c: ChatToolCall| tool_call_of(c),
        ),
    }
    &&& finish_matches(
        match choice.finish_reason {
            Some(s) => Some(s@),
            None => None,
        },
        r.finish_reason,
    )
    &&& r.usage == match resp.usage {
        Some(u) => Some(
            TokenUsage {
                prompt_tokens: u.prompt_tokens,
                completion_tokens: u.completion_tokens,
                total_tokens: u.total_tokens,
            },
        ),
        None => None,
    }
}

/// A parsed reply keeps the reply's tool calls as they came: as many, in
/// the same order, the `k`-th carrying the `k`-th call's id, type, name
/// and arguments; no tool calls in, none out.
pub proof fn law_parsed_calls_keep_order(resp: ChatResponse, r: LLMResponse)
    requires
        resp.choices@.len() > 0,
        parsed_reply(resp, r),
    ensures
        resp.choices@[0].message.tool_calls is None <==> r.message.tool_calls is None,
        resp.choices@[0].message.tool_calls matches Some(v) ==> (r.message.tool_calls matches Some(w)
            && w@.len() == v@.len() && forall|k: int|
            0 <= k < v@.len() ==> {
                &&& (#[trigger] w@[k]).id == v@[k].id
                &&& w@[k].call_type == v@[k].call_type
                &&& w@[k].function.name == v@[k].function.name
                &&& w@[k].function.arguments == v@[k].function.arguments
            }),
{
}

/// A parsed reply carries the first choice's text (empty when it has none),
/// its finish reason by name (no name, or `"stop"`, is `Stop`; `"length"`,
/// `"tool_calls"` and `"content_filter"` their own; any other name kept as
/// it is), and the reported token counts unchanged.
pub proof fn law_parsed_reply_fields(resp: ChatResponse, r: LLMResponse)
    requires
        resp.choices@.len() > 0,
        parsed_reply(resp, r),
    ensures
        resp.choices@[0].message.content matches Some(c) ==> r.message.content@ == c@,
        resp.choices@[0].message.content is None ==> r.message.content@.len() == 0,
        resp.choices@[0].finish_reason is None ==> r.finish_reason is Stop,
        resp.choices@[0].finish_reason matches Some(n) ==> (n@ == "stop"@ ==> r.finish_reason is Stop),
        resp.choices@[0].finish_reason matches Some(n) ==> (n@ == "length"@ ==> r.finish_reason is Length),
        resp.choices@[0].finish_reason matches Some(n) ==> (n@ == "tool_calls"@ ==> r.finish_reason is ToolCalls),
        resp.choices@[0].finish_reason matches Some(n) ==> (n@ == "content_filter"@
            ==> r.finish_reason is ContentFilter),
        resp.choices@[0].finish_reason matches Some(n) ==> ((n@ != "stop"@ && n@ != "length"@ && n@
            != "tool_calls"@ && n@ != "content_filter"@) ==> (r.finish_reason matches FinishReason::Custom(
            t,
        ) && t@ == n@)),
        resp.usage matches Some(u) ==> (r.usage matches Some(t) && t.prompt_tokens == u.prompt_tokens
            && t.completion_tokens == u.completion_tokens && t.total_tokens == u.total_tokens),
        resp.usage is None ==> r.usage is None,
{
    reveal_strlit("stop");
    reveal_strlit("length");
    reveal_strlit("tool_calls");
    reveal_strlit("content_filter");
    assert("length"@[0] != "stop"@[0]);
    assert("tool_calls"@[0] != "stop"@[0] && "tool_calls"@[0] != "length"@[0]);
    assert("content_filter"@[0] != "stop"@[0] && "content_filter"@[0] != "length"@[0]
        && "content_filter"@[0] != "tool_calls"@[0]);
}

/// Maps a decoded `/chat/completions` reply to an `LLMResponse`. A reply
/// without choices is an API error with status 200.
pub fn parse_response(resp: ChatResponse) -> (r: Result<LLMResponse, Error>)
    ensures
        resp.choices@.len() == 0 <==> r is Err,
        r matches Err(e) ==> (e matches Error::ApiError { status, body } && status == 200 && body@
            == "No choices in response"@),
        r matches Ok(ok) ==> parsed_reply(resp, ok),
{
    let ghost orig = resp;
    let ChatResponse { mut choices, usage } = resp;
    if choices.len() == 0 {
        return Err(Error::ApiError { status: 200, body: owned("No choices in response") });
    }
    let choice = choices.remove(0);
    let ChatChoice { message, finish_reason } = choice;
    let content = match message.content {
        Some(c) => c,
        None => String::new(),
    };
    let tool_calls = match message.tool_calls {
        None => None,
        Some(arr) => {
            let ghost src = arr@;
            let mut out: Vec<ToolCall> = Vec::new();
            let mut i: usize = 0;
            while i < arr.len()
                invariant
                    i <= arr.len(),
                    src == arr@,
                    out@ == src.take(i as int).map_values(|c: ChatToolCall| tool_call_of(c)),
                decreases arr.len() - i,
            {
                let tc = &arr[i];
                out.push(
                    ToolCall {
                        id: tc.id.clone(),
                        call_type: tc.call_type.clone(),
                        function: FunctionCall {
                            name: tc.function.name.clone(),
                            arguments: tc.function.arguments.clone(),
                        },
                    },
                );
                proof {
                    assert(src.take(i + 1).map_values(|c: ChatToolCall| tool_call_of(c))
                        =~= src.take(i as int).map_values(|c: ChatToolCall| tool_call_of(c)).push(
                        tool_call_of(src[i as int]),
                    ));
                }
                i = i + 1;
            }
            assert(src.take(arr.len() as int) == src);
            Some(out)
        },
    };
    let finish = finish_from_name(&finish_reason);
    let usage = match usage {
        Some(u) => Some(
            TokenUsage {
                prompt_tokens: u.prompt_tokens,
                completion_tokens: u.completion_tokens,
                total_tokens: u.total_tokens,
            },
        ),
        None => None,
    };
    Ok(LLMResponse { message: AssistantMessage { content, tool_calls }, finish_reason: finish, usage })
}

// ---------------------------------------------------------------------------
// Replies of the Anthropic-style API
// ---------------------------------------------------------------------------

/// A reply of `/messages`, as decoded from its JSON body.
#[derive(Debug)]
pub struct AnthropicResponse {
    pub content: Vec<AnthropicContent>,
    pub stop_reason: Option<String>,
    pub usage: Option<AnthropicUsage>,
}

/// A content block of an Anthropic-style reply. `input` is the tool input
/// rendered as JSON text.
#[derive(Debug)]
pub struct AnthropicContent {
    pub text: Option<String>,
    pub content_type: String,
    pub input: Option<String>,
    pub name: Option<String>,
    pub id: Option<String>,
}

#[derive(Debug, Clone, Copy)]
pub struct AnthropicUsage {
    pub input_tokens: Option<u32>,
    pub output_tokens: Option<u32>,
}

fn opt_text(o: &Option<String>) -> (s: String)
    ensures
        s@ == match o {
            Some(t) => t@,
            None => Seq::<char>::empty(),
        },
{
    match o {
        Some(t) => t.clone(),
        None => String::new(),
    }
}

/// The text of a block, when it is a text block.
pub open spec fn block_text(b: AnthropicContent) -> Seq<char> {
    if b.content_type@ == "text"@ {
        match b.text {
            Some(t) => t@,
            None => Seq::<char>::empty(),
        }
    } else {
        Seq::<char>::empty()
    }
}

/// The text of a reply: its text blocks' texts, concatenated.
pub open spec fn reply_text(blocks: Seq<AnthropicContent>) -> Seq<char>
    decreases blocks.len(),
{
    if blocks.len() == 0 {
        Seq::<char>::empty()
    } else {
        reply_text(blocks.drop_last()) + block_text(blocks.last())
    }
}

/// The text of an optional string, empty when absent.
pub open spec fn or_empty(o: Option<String>) -> Seq<char> {
    match o {
        Some(t) => t@,
        None => Seq::<char>::empty(),
    }
}

/// The tool calls of a reply: one per `tool_use` block, in order, with
/// type `function` and missing fields empty.
pub open spec fn reply_calls(blocks: Seq<AnthropicContent>) -> Seq<(Seq<char>, Seq<char>, Seq<char>, Seq<char>)>
    decreases blocks.len(),
{
    if blocks.len() == 0 {
        Seq::empty()
    } else {
        let b = blocks.last();
        let rest = reply_calls(blocks.drop_last());
        if b.content_type@ == "tool_use"@ {
            rest.push((or_empty(b.id), "function"@, or_empty(b.name), or_empty(b.input)))
        } else {
            rest
        }
    }
}

/// The view of a tool call: id, type, name and arguments.
pub open spec fn call_view(c: ToolCall) -> (Seq<char>, Seq<char>, Seq<char>, Seq<char>) {
    (c.id@, c.call_type@, c.function.name@, c.function.arguments@)
}

/// The stop reason of an Anthropic-style reply.
pub open spec fn anthropic_finish_matches(r: Option<Seq<char>>, f: FinishReason) -> bool {
    match r {
        None => f is Stop,
        Some(s) => if s == "end_turn"@ {
            f is Stop
        } else if s == "tool_use"@ {
            f is ToolCalls
        } else if s == "max_tokens"@ {
            f is Length
        } else {
            f matches FinishReason::Custom(c) && c@ == s
        },
    }
}

/// Input plus output tokens of a usage report, missing counts as zero.
pub open spec fn usage_sum(u: AnthropicUsage) -> nat {
    (match u.input_tokens { Some(n) => n as nat, None => 0 }) + (match u.output_tokens {
        Some(n) => n as nat,
        None => 0,
    })
}

/// Whether the reply's input and output token counts add up within a
/// `u32`.
pub fn usage_fits(resp: &AnthropicResponse) -> (b: bool)
    ensures
        b == (resp.usage matches Some(u) ==> usage_sum(u) <= u32::MAX),
{
    match resp.usage {
        None => true,
        Some(u) => {
            let input: u32 = match u.input_tokens {
                Some(n) => n,
                None => 0,
            };
            let output: u32 = match u.output_tokens {
                Some(n) => n,
                None => 0,
            };
            input.checked_add(output).is_some()
        },
    }
}

/// Maps a decoded `/messages` reply to an `LLMResponse`: text blocks make
/// the content, `tool_use` blocks the tool calls (none at all when there
/// are no such blocks), the stop reason the finish reason, and input plus
/// output tokens the total.
pub fn parse_anthropic_response(resp: AnthropicResponse) -> (r: LLMResponse)
    requires
        resp.usage matches Some(u) ==> usage_sum(u) <= u32::MAX,
    ensures
        r.message.content@ == reply_text(resp.content@),
        reply_calls(resp.content@).len() == 0 ==> r.message.tool_calls is None,
        reply_calls(resp.content@).len() > 0 ==> (r.message.tool_calls matches Some(v) && v@.map_values(
            |c: ToolCall| call_view(c),
        ) == reply_calls(resp.content@)),
        anthropic_finish_matches(
            match resp.stop_reason {
                Some(s) => Some(s@),
                None => None,
            },
            r.finish_reason,
        ),
        match resp.usage {
            None => r.usage is None,
            Some(u) => r.usage matches Some(t) && t.prompt_tokens == (match u.input_tokens {
                Some(n) => n,
                None => 0,
            }) && t.completion_tokens == (match u.output_tokens {
                Some(n) => n,
                None => 0,
            }) && t.total_tokens == usage_sum(u),
        },
{
    let blocks = &resp.content;
    let mut content = String::new();
    let mut calls: Vec<ToolCall> = Vec::new();
    let mut i: usize = 0;
    while i < blocks.len()
        invariant
            i <= blocks.len(),
            content@ == reply_text(blocks@.take(i as int)),
            calls@.map_values(|c: ToolCall| call_view(c)) == reply_calls(blocks@.take(i as int)),
        decreases blocks.len() - i,
    {
        let b = &blocks[i];
        assert(blocks@.take(i + 1).drop_last() == blocks@.take(i as int));
        assert(blocks@.take(i + 1).last() == blocks@[i as int]);
        if b.content_type == owned("text") {
            if let Some(t) = &b.text {
                push_str(&mut content, t.as_str());
            } else {
                assert(content@ + Seq::<char>::empty() == content@);
            }
        } else {
            assert(content@ + Seq::<char>::empty() == content@);
        }
        if b.content_type == owned("tool_use") {
            let ghost before = calls@;
            calls.push(
                ToolCall {
                    id: opt_text(&b.id),
                    call_type: owned("function"),
                    function: FunctionCall { name: opt_text(&b.name), arguments: opt_text(&b.input) },
                },
            );
            proof {
                assert(calls@.map_values(|c: ToolCall| call_view(c)) =~= before.map_values(
                    |c: ToolCall| call_view(c),
                ).push(call_view(calls@.last())));
            }
        }
        i = i + 1;
    }
    assert(blocks@.take(blocks.len() as int) == blocks@);
    let tool_calls = if calls.len() == 0 { None } else { Some(calls) };
    let finish = match &resp.stop_reason {
        None => FinishReason::Stop,
        Some(s) => {
            if *s == owned("end_turn") {
                FinishReason::Stop
            } else if *s == owned("tool_use") {
                FinishReason::ToolCalls
            } else if *s == owned("max_tokens") {
                FinishReason::Length
            } else {
                FinishReason::Custom(s.clone())
            }
        },
    };
    let usage = match resp.usage {
        None => None,
        Some(u) => {
            let input = match u.input_tokens {
                Some(n) => n,
                None => 0,
            };
            let output = match u.output_tokens {
                Some(n) => n,
                None => 0,
            };
            Some(
                TokenUsage {
                    prompt_tokens: input,
                    completion_tokens: output,
                    total_tokens: input + output,
                },
            )
        },
    };
    LLMResponse { message: AssistantMessage { content, tool_calls }, finish_reason: finish, usage }
}

// ---------------------------------------------------------------------------
// Anthropic-style requests
// ---------------------------------------------------------------------------

/// A content block of an Anthropic-style request.
#[derive(Debug)]
pub enum AnthropicBlock {
    Text(String),
    /// A tool call; `arguments` is the call's JSON argument text and
    /// `input` that text parsed (`None` when it is not JSON).
    ToolUse { id: String, name: String, arguments: String, input: Option<serde_json::Value> },
    ToolResult { tool_use_id: String, content: String },
}

/// A message of an Anthropic-style request.
#[derive(Debug)]
pub struct AnthropicMessage {
    /// `"user"` or `"assistant"`.
    pub role: String,
    pub blocks: Vec<AnthropicBlock>,
}

/// The conversation part of an Anthropic-style request: the system prompt
/// (system messages joined by blank lines) and the other messages.
#[derive(Debug)]
pub struct AnthropicConversation {
    pub system: String,
    pub messages: Vec<AnthropicMessage>,
}

/// The contents of the system messages among `msgs`, in order.
pub open spec fn system_texts(msgs: Seq<Message>) -> Seq<Seq<char>>
    decreases msgs.len(),
{
    if msgs.len() == 0 {
        Seq::empty()
    } else {
        let rest = system_texts(msgs.drop_last());
        match msgs.last() {
            Message::System(s) => rest.push(s.content@),
            _ => rest,
        }
    }
}

/// The view of a request block.
pub enum BlockView {
    Text(Seq<char>),
    ToolUse(Seq<char>, Seq<char>, Seq<char>, Option<serde_json::Value>),
    ToolResult(Seq<char>, Seq<char>),
}

pub open spec fn block_view(b: AnthropicBlock) -> BlockView {
    match b {
        AnthropicBlock::Text(t) => BlockView::Text(t@),
        AnthropicBlock::ToolUse { id, name, arguments, input } => BlockView::ToolUse(
            id@,
            name@,
            arguments@,
            input,
        ),
        AnthropicBlock::ToolResult { tool_use_id, content } => BlockView::ToolResult(
            tool_use_id@,
            content@,
        ),
    }
}

/// The `tool_use` blocks of an assistant's tool calls.
pub open spec fn tool_use_blocks(calls: Seq<ToolCall>) -> Seq<BlockView> {
    calls.map_values(
        |c: ToolCall|
            BlockView::ToolUse(
                c.id@,
                c.function.name@,
                c.function.arguments@,
                spec_parse_json(c.function.arguments@),
            ),
    )
}

/// The request message for a non-system message: a user text block; an
/// assistant's text (when not empty) then its tool calls; a tool result as
/// a user `tool_result` block.
pub open spec fn request_message(m: Message) -> (Seq<char>, Seq<BlockView>) {
    match m {
        Message::User(u) => ("user"@, seq![BlockView::Text(u.content@)]),
        Message::Assistant(a) => (
            "assistant"@,
            (if a.content@.len() > 0 { seq![BlockView::Text(a.content@)] } else { Seq::empty() })
                + match a.tool_calls {
                Some(v) => tool_use_blocks(v@),
                None => Seq::empty(),
            },
        ),
        Message::Tool(t) => ("user"@, seq![BlockView::ToolResult(t.tool_call_id@, t.content@)]),
        Message::System(_) => ("user"@, Seq::empty()),
    }
}

/// The request messages for the non-system messages of `msgs`, in order.
pub open spec fn request_messages(msgs: Seq<Message>) -> Seq<(Seq<char>, Seq<BlockView>)>
    decreases msgs.len(),
{
    if msgs.len() == 0 {
        Seq::empty()
    } else {
        let rest = request_messages(msgs.drop_last());
        match msgs.last() {
            Message::System(_) => rest,
            m => rest.push(request_message(m)),
        }
    }
}

pub open spec fn message_view(m: AnthropicMessage) -> (Seq<char>, Seq<BlockView>) {
    (m.role@, m.blocks@.map_values(|b: AnthropicBlock| block_view(b)))
}

fn request_message_of(m: &Message) -> (r: AnthropicMessage)
    requires
        !(*m is System),
    ensures
        message_view(r) == request_message(*m),
{
    match m {
        Message::User(u) => {
            let mut blocks: Vec<AnthropicBlock> = Vec::new();
            blocks.push(AnthropicBlock::Text(u.content.clone()));
            let r = AnthropicMessage { role: owned("user"), blocks };
            assert(message_view(r).1 =~= seq![BlockView::Text(u.content@)]);
            r
        },
        Message::Tool(t) => {
            let mut blocks: Vec<AnthropicBlock> = Vec::new();
            blocks.push(
                AnthropicBlock::ToolResult {
                    tool_use_id: t.tool_call_id.clone(),
                    content: t.content.clone(),
                },
            );
            let r = AnthropicMessage { role: owned("user"), blocks };
            assert(message_view(r).1 =~= seq![BlockView::ToolResult(t.tool_call_id@, t.content@)]);
            r
        },
        Message::Assistant(a) => {
            let mut blocks: Vec<AnthropicBlock> = Vec::new();
            if !a.content.as_str().is_empty() {
                blocks.push(AnthropicBlock::Text(a.content.clone()));
            }
            let ghost head = blocks@.map_values(|b: AnthropicBlock| block_view(b));
            assert(head =~= (if a.content@.len() > 0 { seq![BlockView::Text(a.content@)] } else { Seq::empty() }));
            match &a.tool_calls {
                Some(v) => {
                    let mut i: usize = 0;
                    while i < v.len()
                        invariant
                            i <= v.len(),
                            blocks@.map_values(|b: AnthropicBlock| block_view(b)) == head
                                + tool_use_blocks(v@).take(i as int),
                        decreases v.len() - i,
                    {
                        let c = &v[i];
                        let ghost before = blocks@;
                        blocks.push(
                            AnthropicBlock::ToolUse {
                                id: c.id.clone(),
                                name: c.function.name.clone(),
                                arguments: c.function.arguments.clone(),
                                input: parse_json(c.function.arguments.as_str()),
                            },
                        );
                        proof {
                            assert(blocks@.map_values(|b: AnthropicBlock| block_view(b))
                                =~= before.map_values(|b: AnthropicBlock| block_view(b)).push(
                                tool_use_blocks(v@)[i as int],
                            ));
                            assert(tool_use_blocks(v@).take(i + 1) =~= tool_use_blocks(v@).take(
                                i as int,
                            ).push(tool_use_blocks(v@)[i as int]));
                        }
                        i = i + 1;
                    }
                    assert(tool_use_blocks(v@).take(v.len() as int) == tool_use_blocks(v@));
                },
                None => {
                    assert(head + Seq::<BlockView>::empty() == head);
                },
            }
            AnthropicMessage { role: owned("assistant"), blocks }
        },
        Message::System(_) => {
            AnthropicMessage { role: owned("user"), blocks: Vec::new() }
        },
    }
}

/// The conversation of an Anthropic-style request for `messages`: system
/// messages become the top-level system prompt, the others request
/// messages.
pub fn anthropic_conversation(messages: &[Message]) -> (c: AnthropicConversation)
    ensures
        c.system@ == seq_join(system_texts(messages@), "\n\n"@),
        c.messages@.map_values(|m: AnthropicMessage| message_view(m)) == request_messages(
            messages@,
        ),
{
    let mut systems: Vec<String> = Vec::new();
    let mut out: Vec<AnthropicMessage> = Vec::new();
    let mut i: usize = 0;
    while i < messages.len()
        invariant
            i <= messages.len(),
            systems@.map_values(|s: String| s@) == system_texts(messages@.take(i as int)),
            out@.map_values(|m: AnthropicMessage| message_view(m)) == request_messages(
                messages@.take(i as int),
            ),
        decreases messages.len() - i,
    {
        assert(messages@.take(i + 1).drop_last() == messages@.take(i as int));
        assert(messages@.take(i + 1).last() == messages@[i as int]);
        let ghost sys_before = systems@;
        let ghost out_before = out@;
        match &messages[i] {
            Message::System(s) => {
                systems.push(s.content.clone());
                assert(systems@.map_values(|s: String| s@) =~= sys_before.map_values(
                    |s: String| s@,
                ).push(s.content@));
            },
            m => {
                out.push(request_message_of(m));
                assert(out@.map_values(|m: AnthropicMessage| message_view(m))
                    =~= out_before.map_values(|m: AnthropicMessage| message_view(m)).push(
                    request_message(*m),
                ));
            },
        }
        i = i + 1;
    }
    assert(messages@.take(messages.len() as int) == messages@);
    let system = crate::text::join(&systems, "\n\n");
    AnthropicConversation { system, messages: out }
}

// ---------------------------------------------------------------------------
// Server-sent events
// ---------------------------------------------------------------------------

/// Bytes of a response stream not yet split into lines.
pub struct SseBuffer {
    buf: Vec<u8>,
}

/// Index of the first newline byte in `s`, if any.
pub open spec fn first_newline(s: Seq<u8>) -> Option<int>
    decreases s.len(),
{
    if s.len() == 0 {
        None
    } else if s[0] == 10 {
        Some(0)
    } else {
        match first_newline(s.drop_first()) {
            Some(i) => Some(i + 1),
            None => None,
        }
    }
}

proof fn lemma_first_newline(s: Seq<u8>, i: int)
    requires
        0 <= i <= s.len(),
        forall|k: int| 0 <= k < i ==> s[k] != 10,
    ensures
        i < s.len() && s[i] == 10 ==> first_newline(s) == Some(i),
        i == s.len() ==> first_newline(s) is None,
    decreases i,
{
    if i > 0 {
        lemma_first_newline(s.drop_first(), i - 1);
    }
}

impl SseBuffer {
    /// The bytes held.
    pub closed spec fn pending(&self) -> Seq<u8> {
        self.buf@
    }

    pub fn new() -> (b: Self)
        ensures
            b.pending() == Seq::<u8>::empty(),
    {
        SseBuffer { buf: Vec::new() }
    }

    /// Appends a chunk of the stream.
    pub fn push(&mut self, bytes: &[u8])
        ensures
            final(self).pending() == old(self).pending() + bytes@,
    {
        let mut i: usize = 0;
        let ghost start = self.buf@;
        while i < bytes.len()
            invariant
                i <= bytes.len(),
                self.buf@ == start + bytes@.take(i as int),
            decreases bytes.len() - i,
        {
            self.buf.push(bytes[i]);
            assert(bytes@.take(i + 1) == bytes@.take(i as int).push(bytes@[i as int]));
            i = i + 1;
        }
        assert(bytes@.take(bytes.len() as int) == bytes@);
    }

    /// Takes the next complete line (without its newline), if one is
    /// buffered; the rest stays buffered.
    pub fn next_line(&mut self) -> (l: Option<Vec<u8>>)
        ensures
            match first_newline(old(self).pending()) {
                None => l is None && final(self).pending() == old(self).pending(),
                Some(p) => l matches Some(v) && v@ == old(self).pending().take(p)
                    && final(self).pending() == old(self).pending().skip(p + 1),
            },
    {
        let mut i: usize = 0;
        while i < self.buf.len() && self.buf[i] != 10
            invariant
                i <= self.buf.len(),
                forall|k: int| 0 <= k < i ==> self.buf@[k] != 10,
            decreases self.buf.len() - i,
        {
            i = i + 1;
        }
        proof {
            lemma_first_newline(self.buf@, i as int);
        }
        if i == self.buf.len() {
            return None;
        }
        let mut line = self.buf.split_off(i);
        std::mem::swap(&mut line, &mut self.buf);
        self.buf.remove(0);
        assert(self.buf@ =~= old(self).pending().skip(i + 1));
        Some(line)
    }
}

/// `std::str::from_utf8`: the text of valid UTF-8 bytes, `None` for bytes
/// that are not valid UTF-8.
#[verifier::external_body]
fn utf8_text(bytes: &[u8]) -> (r: Option<String>)
    ensures
        r is Some <==> vstd::utf8::valid_utf8(bytes@),
        r matches Some(s) ==> s@ == vstd::utf8::decode_utf8(bytes@),
{
    std::str::from_utf8(bytes).ok().map(|s| s.to_string())
}

/// What a line of an event stream carries.
#[derive(Debug)]
pub enum SseLine {
    /// A blank line or a comment (`:`).
    Skip,
    /// `data: [DONE]`: the stream is over.
    Done,
    /// `data: <payload>`.
    Data(String),
    /// Any other field.
    Other,
}

/// The text of a line: its UTF-8 decoding (empty if invalid), trimmed.
pub open spec fn line_text(bytes: Seq<u8>) -> Seq<char> {
    spec_trim(
        if vstd::utf8::valid_utf8(bytes) { vstd::utf8::decode_utf8(bytes) } else { Seq::<char>::empty() },
    )
}

/// The view of a classified line: its kind (0 skip, 1 done, 2 data, 3
/// other) and payload.
pub open spec fn sse_view(l: SseLine) -> (int, Seq<char>) {
    match l {
        SseLine::Skip => (0, Seq::<char>::empty()),
        SseLine::Done => (1, Seq::<char>::empty()),
        SseLine::Data(d) => (2, d@),
        SseLine::Other => (3, Seq::<char>::empty()),
    }
}

/// How a line is read: blank or `:` lines are skipped, `data: [DONE]`
/// ends the stream, `data: ` lines carry a payload.
pub open spec fn spec_sse_line(bytes: Seq<u8>) -> (int, Seq<char>) {
    let t = line_text(bytes);
    if t.len() == 0 || has_prefix(t, ":"@) {
        (0, Seq::<char>::empty())
    } else if t == "data: [DONE]"@ {
        (1, Seq::<char>::empty())
    } else if has_prefix(t, "data: "@) {
        (2, t.skip(6))
    } else {
        (3, Seq::<char>::empty())
    }
}

/// Reads a line of an event stream.
pub fn classify_sse_line(bytes: &[u8]) -> (l: SseLine)
    ensures
        sse_view(l) == spec_sse_line(bytes@),
{
    let text = match utf8_text(bytes) {
        Some(s) => s,
        None => String::new(),
    };
    let t = trim(text.as_str());
    if t.as_str().is_empty() || starts_with(t.as_str(), ":") {
        return SseLine::Skip;
    }
    if t == owned("data: [DONE]") {
        return SseLine::Done;
    }
    if starts_with(t.as_str(), "data: ") {
        let cs = crate::text::to_chars(t.as_str());
        proof {
            reveal_strlit("data: ");
        }
        let payload = crate::text::from_chars(&cs.as_slice()[6..cs.len()]);
        assert(payload@ == t@.skip(6));
        return SseLine::Data(payload);
    }
    SseLine::Other
}

/// The fields of a streamed chunk that matter: the first choice's
/// reasoning and content deltas and its finish reason.
#[derive(Debug)]
pub struct StreamChunk {
    pub reasoning: Option<String>,
    pub content: Option<String>,
    pub finish_reason: Option<String>,
}

/// The finish reason named in a stream: the three known names, anything
/// else counts as `Stop`.
pub open spec fn stream_finish_matches(r: Seq<char>, f: FinishReason) -> bool {
    if r == "length"@ {
        f is Length
    } else if r == "tool_calls"@ {
        f is ToolCalls
    } else {
        f is Stop
    }
}

/// The text of an optional string.
pub open spec fn opt_view(o: Option<String>) -> Option<Seq<char>> {
    match o {
        Some(t) => Some(t@),
        None => None,
    }
}

/// A delta that counts: present and not empty.
pub open spec fn delta_count(d: Option<Seq<char>>) -> int {
    if d matches Some(t) && t.len() > 0 { 1 } else { 0 }
}

/// `ev` is exactly the events of a chunk with these deltas and finish
/// reason: a `Thinking` event for a non-empty reasoning delta, then a
/// `Content` event for a non-empty content delta, then a `Finish` event
/// when a finish reason is named.
pub open spec fn chunk_events_are(
    ev: Seq<StreamEvent>,
    reasoning: Option<Seq<char>>,
    content: Option<Seq<char>>,
    finish: Option<Seq<char>>,
) -> bool {
    let nr = delta_count(reasoning);
    let nc = delta_count(content);
    &&& ev.len() == nr + nc + (if finish is Some { 1int } else { 0 })
    &&& nr == 1 ==> (ev[0] matches StreamEvent::Thinking(t) && t@ == reasoning->0)
    &&& nc == 1 ==> (ev[nr] matches StreamEvent::Content(t) && t@ == content->0)
    &&& finish is Some ==> (ev[nr + nc] matches StreamEvent::Finish(f) && stream_finish_matches(
        finish->0,
        f,
    ))
}

/// The events of a chunk: a reasoning delta and a content delta when not
/// empty, then the finish when the chunk names one (which ends the
/// stream).
pub fn chunk_events(chunk: &StreamChunk) -> (r: (Vec<StreamEvent>, bool))
    ensures
        r.1 == chunk.finish_reason is Some,
        chunk_events_are(
            r.0@,
            opt_view(chunk.reasoning),
            opt_view(chunk.content),
            opt_view(chunk.finish_reason),
        ),
{
    let mut events: Vec<StreamEvent> = Vec::new();
    if let Some(t) = &chunk.reasoning {
        if !t.as_str().is_empty() {
            events.push(StreamEvent::Thinking(t.clone()));
        }
    }
    let ghost nr = events@.len();
    if let Some(t) = &chunk.content {
        if !t.as_str().is_empty() {
            events.push(StreamEvent::Content(t.clone()));
        }
    }
    let ghost nrc = events@.len();
    let finished = match &chunk.finish_reason {
        Some(r) => {
            let f = if *r == owned("length") {
                FinishReason::Length
            } else if *r == owned("tool_calls") {
                FinishReason::ToolCalls
            } else {
                FinishReason::Stop
            };
            events.push(StreamEvent::Finish(f));
            true
        },
        None => false,
    };
    assert(nr == delta_count(opt_view(chunk.reasoning)));
    assert(nrc == nr + delta_count(opt_view(chunk.content)));
    (events, finished)
}

/// The strings at `choices[0].delta.reasoning_content`,
/// `choices[0].delta.content` and `choices[0].finish_reason` of a JSON
/// document (each `None` when absent or not a string).
pub uninterp spec fn spec_chunk_fields(v: serde_json::Value) -> (
    Option<Seq<char>>,
    Option<Seq<char>>,
    Option<Seq<char>>,
);

/// The view of a chunk: its reasoning delta, content delta and finish
/// reason.
pub open spec fn chunk_view(c: StreamChunk) -> (Option<Seq<char>>, Option<Seq<char>>, Option<Seq<char>>) {
    (opt_view(c.reasoning), opt_view(c.content), opt_view(c.finish_reason))
}

/// Picks the three fields a chunk has with serde_json's indexing and
/// `Value::as_str`.
#[verifier::external_body]
fn chunk_fields(v: &serde_json::Value) -> (r: StreamChunk)
    ensures
        chunk_view(r) == spec_chunk_fields(*v),
{
    let choice = &v["choices"][0];
    StreamChunk {
        reasoning: choice["delta"]["reasoning_content"].as_str().map(str::to_string),
        content: choice["delta"]["content"].as_str().map(str::to_string),
        finish_reason: choice["finish_reason"].as_str().map(str::to_string),
    }
}

/// How a stream payload reads: `None` when it is not JSON, else the
/// chunk's three fields.
pub open spec fn spec_stream_chunk(data: Seq<char>) -> Option<
    (Option<Seq<char>>, Option<Seq<char>>, Option<Seq<char>>),
> {
    match spec_parse_json(data) {
        Some(v) => Some(spec_chunk_fields(v)),
        None => None,
    }
}

/// What a line of an event stream gives: the events to send, and whether
/// the stream is over. Blank, comment and other lines give nothing;
/// `data: [DONE]` gives `Finish(Stop)` and ends the stream; a `data: `
/// payload that is not JSON gives nothing, one that is gives its chunk's
/// events and ends the stream when the chunk names a finish reason.
pub fn line_events(line: &[u8]) -> (r: (Vec<StreamEvent>, bool))
    ensures
        spec_sse_line(line@).0 == 0 || spec_sse_line(line@).0 == 3 ==> r.0@.len() == 0 && !r.1,
        spec_sse_line(line@).0 == 1 ==> r.0@ == seq![StreamEvent::Finish(FinishReason::Stop)]
            && r.1,
        spec_sse_line(line@).0 == 2 ==> match spec_stream_chunk(spec_sse_line(line@).1) {
            None => r.0@.len() == 0 && !r.1,
            Some(v) => chunk_events_are(r.0@, v.0, v.1, v.2) && r.1 == v.2 is Some,
        },
{
    match classify_sse_line(line) {
        SseLine::Done => {
            let mut ev: Vec<StreamEvent> = Vec::new();
            ev.push(StreamEvent::Finish(FinishReason::Stop));
            (ev, true)
        },
        SseLine::Data(data) => match parse_json(data.as_str()) {
            Some(v) => chunk_events(&chunk_fields(&v)),
            None => (Vec::new(), false),
        },
        _ => (Vec::new(), false),
    }
}

/// The last event of a stream that ended without a finish of its own: a
/// read error gives `Finish(Custom("stream_error"))`, the end of the body
/// `Finish(Stop)`.
pub fn stream_end_event(read_error: bool) -> (e: StreamEvent)
    ensures
        read_error ==> (e matches StreamEvent::Finish(FinishReason::Custom(s)) && s@ == "stream_error"@),
        !read_error ==> e == StreamEvent::Finish(FinishReason::Stop),
{
    if read_error {
        let s = owned("stream_error");
        StreamEvent::Finish(FinishReason::Custom(s))
    } else {
        StreamEvent::Finish(FinishReason::Stop)
    }
}

/// The events of a provider without streaming: the whole content, then
/// the finish reason.
pub fn single_shot_events(response: &LLMResponse) -> (r: Vec<StreamEvent>)
    ensures
        r@.len() == 2,
        r@[0] == StreamEvent::Content(response.message.content),
        r@[1] == StreamEvent::Finish(response.finish_reason),
{
    let mut r: Vec<StreamEvent> = Vec::new();
    r.push(StreamEvent::Content(response.message.content.clone()));
    r.push(StreamEvent::Finish(response.finish_reason.clone()));
    r
}

// ---------------------------------------------------------------------------
// Provider settings and request bodies
// ---------------------------------------------------------------------------

/// How a provider talks to its API: where, with which key and model, in
/// which format, with which extra body fields, how often it retries, and
/// whether it asks for thinking.
#[derive(Debug)]
pub struct ProviderSettings {
    pub base_url: String,
    pub api_key: String,
    pub model: String,
    pub format: ApiFormat,
    /// Extra body fields, each key once.
    pub extra_body: serde_json::Map<String, serde_json::Value>,
    pub max_retries: usize,
    pub retry_delay_ms: u64,
    pub thinking_effort: Option<String>,
}

/// The text of an optional string.
pub open spec fn text_option(o: Option<String>) -> Option<Seq<char>> {
    match o {
        Some(s) => Some(s@),
        None => None,
    }
}

/// A JSON object of serde_json, keyed by text.
pub type JsonObject = serde_json::Map<String, serde_json::Value>;

/// What a serde_json object holds: each key's value.
pub uninterp spec fn json_map_view(
    m: serde_json::Map<String, serde_json::Value>,
) -> Map<Seq<char>, serde_json::Value>;

/// The order in which a serde_json object yields its keys (sorted, or
/// first-inserted first when serde_json keeps insertion order).
pub uninterp spec fn json_map_key_order(m: serde_json::Map<String, serde_json::Value>) -> Seq<Seq<char>>;

/// `serde_json::Map::new`: an empty object.
#[verifier::external_body]
fn json_map_new() -> (r: JsonObject)
    ensures
        json_map_view(r).dom() == Set::<Seq<char>>::empty(),
{
    serde_json::Map::new()
}

/// `serde_json::Map::insert`: `key` then holds `value`, the other keys
/// keep theirs.
#[verifier::external_body]
fn json_map_insert(m: &mut serde_json::Map<String, serde_json::Value>, key: String, value: serde_json::Value)
    ensures
        json_map_view(*final(m)) == json_map_view(*old(m)).insert(key@, value),
{
    m.insert(key, value);
}

/// `serde_json::Map::keys`, collected: every key once, in the object's
/// order.
#[verifier::external_body]
fn json_map_keys(m: &serde_json::Map<String, serde_json::Value>) -> (r: Vec<String>)
    ensures
        views(r@) == json_map_key_order(*m),
        views(r@).no_duplicates(),
        views(r@).to_set() == json_map_view(*m).dom(),
{
    m.keys().cloned().collect()
}

impl ProviderSettings {
    /// OpenAI format, no extra fields, 2 retries 1000 ms apart, no thinking.
    pub fn new(base_url: String, api_key: String, model: String) -> (s: Self)
        ensures
            s.base_url == base_url,
            s.api_key == api_key,
            s.model == model,
            s.format == ApiFormat::OpenAI,
            json_map_view(s.extra_body) == Map::<Seq<char>, serde_json::Value>::empty(),
            s.max_retries == 2,
            s.retry_delay_ms == 1000,
            s.thinking_effort is None,
    {
        let extra_body = json_map_new();
        assert(json_map_view(extra_body) =~= Map::<Seq<char>, serde_json::Value>::empty());
        ProviderSettings {
            base_url,
            api_key,
            model,
            format: ApiFormat::OpenAI,
            extra_body,
            max_retries: 2,
            retry_delay_ms: 1000,
            thinking_effort: None,
        }
    }

    /// Adds (or replaces) an extra body field sent with every request.
    pub fn with_body(self, key: &str, value: serde_json::Value) -> (s: Self)
        ensures
            json_map_view(s.extra_body) == json_map_view(self.extra_body).insert(key@, value),
            s.base_url == self.base_url && s.api_key == self.api_key && s.model == self.model,
            s.format == self.format && s.max_retries == self.max_retries,
            s.retry_delay_ms == self.retry_delay_ms && s.thinking_effort == self.thinking_effort,
    {
        let mut s = self;
        json_map_insert(&mut s.extra_body, owned(key), value);
        s
    }

    /// Sets how many times a transient failure is retried.
    pub fn with_retry(self, max: usize) -> (s: Self)
        ensures
            s.max_retries == max,
            s.base_url == self.base_url && s.api_key == self.api_key && s.model == self.model,
            s.format == self.format && s.extra_body == self.extra_body,
            s.retry_delay_ms == self.retry_delay_ms && s.thinking_effort == self.thinking_effort,
    {
        ProviderSettings { max_retries: max, ..self }
    }

    /// Asks for thinking with the given effort (`"high"` or `"max"`).
    pub fn with_thinking(self, effort: &str) -> (s: Self)
        ensures
            s.thinking_effort matches Some(e) && e@ == effort@,
            s.base_url == self.base_url && s.api_key == self.api_key && s.model == self.model,
            s.format == self.format && s.extra_body == self.extra_body,
            s.retry_delay_ms == self.retry_delay_ms && s.max_retries == self.max_retries,
    {
        ProviderSettings { thinking_effort: Some(owned(effort)), ..self }
    }

    /// Switches to the Anthropic messages format.
    pub fn with_anthropic(self) -> (s: Self)
        ensures
            s.format == ApiFormat::Anthropic,
            s.base_url == self.base_url && s.api_key == self.api_key && s.model == self.model,
            s.extra_body == self.extra_body && s.thinking_effort == self.thinking_effort,
            s.retry_delay_ms == self.retry_delay_ms && s.max_retries == self.max_retries,
    {
        ProviderSettings { format: ApiFormat::Anthropic, ..self }
    }

    /// The retry policy of these settings.
    pub fn retry_policy(&self) -> (p: RetryPolicy)
        ensures
            p.retries() == self.max_retries,
            p.base_delay() == self.retry_delay_ms,
            p.attempts_made() == 0,
            p.last_error() is None,
    {
        RetryPolicy::new(self.max_retries, self.retry_delay_ms)
    }

    /// The plan of a request body: its fields in the order they are set, a
    /// later field replacing an earlier one with the same key.
    pub fn body_fields(&self, stream: bool, has_tools: bool, system: &str) -> (r: Vec<BodyField>)
        ensures
            r@.map_values(|f: BodyField| field_view(f)) == body_plan(
                self.format,
                stream,
                has_tools,
                system@,
                text_option(self.thinking_effort),
                json_map_key_order(self.extra_body),
            ),
    {
        let ghost effort = text_option(self.thinking_effort);
        let ghost head = base_fields(self.format, stream, has_tools, system@, effort);
        let mut r: Vec<BodyField> = Vec::new();
        let anthropic = match self.format {
            ApiFormat::Anthropic => true,
            ApiFormat::OpenAI => false,
        };
        r.push(BodyField { key: owned("model"), value: BodyValue::Model });
        if anthropic {
            r.push(BodyField { key: owned("max_tokens"), value: BodyValue::MaxTokens(ANTHROPIC_MAX_TOKENS) });
        }
        r.push(BodyField { key: owned("messages"), value: BodyValue::Messages });
        if stream {
            r.push(BodyField { key: owned("stream"), value: BodyValue::Stream });
        }
        if anthropic && !system.is_empty() {
            r.push(BodyField { key: owned("system"), value: BodyValue::System(owned(system)) });
        }
        if has_tools {
            r.push(BodyField { key: owned("tools"), value: BodyValue::Tools });
        }
        if let Some(e) = &self.thinking_effort {
            r.push(BodyField { key: owned("thinking"), value: BodyValue::Thinking });
            if anthropic {
                r.push(BodyField { key: owned("output_config"), value: BodyValue::OutputEffort(e.clone()) });
            } else {
                r.push(BodyField { key: owned("reasoning_effort"), value: BodyValue::ReasoningEffort(e.clone()) });
            }
        }
        assert(r@.map_values(|f: BodyField| field_view(f)) =~= head);
        let keys = json_map_keys(&self.extra_body);
        let ghost ks = json_map_key_order(self.extra_body);
        let mut i: usize = 0;
        while i < keys.len()
            invariant
                i <= keys@.len(),
                views(keys@) == ks,
                head == base_fields(self.format, stream, has_tools, system@, effort),
                r@.map_values(|f: BodyField| field_view(f)) == head + extra_fields(ks.take(i as int), 0),
            decreases keys@.len() - i,
        {
            let ghost before = r@;
            r.push(BodyField { key: keys[i].clone(), value: BodyValue::Extra(i) });
            proof {
                assert(keys@[i as int]@ == ks[i as int]);
                lemma_extra_fields_push(ks.take(i as int), ks[i as int]);
                assert(ks.take(i + 1) =~= ks.take(i as int).push(ks[i as int]));
                assert(r@.map_values(|f: BodyField| field_view(f)) =~= before.map_values(
                    |f: BodyField| field_view(f),
                ).push((ks[i as int], FieldKind::Extra(i as int))));
            }
            i = i + 1;
        }
        assert(ks.take(keys@.len() as int) =~= ks);
        r
    }
}

/// The output token cap of an Anthropic-style request.
pub const ANTHROPIC_MAX_TOKENS: u32 = 4096;

/// What a body field holds.
#[derive(Debug)]
pub enum BodyValue {
    /// The model name.
    Model,
    /// The output token cap.
    MaxTokens(u32),
    /// The conversation, in the request's format.
    Messages,
    /// `true`: the reply is streamed.
    Stream,
    /// The system prompt (Anthropic format).
    System(String),
    /// The tool definitions, in the request's format.
    Tools,
    /// `{"type": "enabled"}`.
    Thinking,
    /// The thinking effort (OpenAI format).
    ReasoningEffort(String),
    /// `{"effort": ...}` (Anthropic format).
    OutputEffort(String),
    /// The extra field at this position of the settings' key order.
    Extra(usize),
}

/// A field of a request body.
#[derive(Debug)]
pub struct BodyField {
    pub key: String,
    pub value: BodyValue,
}

/// The kind of a body field, with its text or position.
pub enum FieldKind {
    Model,
    MaxTokens(int),
    Messages,
    Stream,
    System(Seq<char>),
    Tools,
    Thinking,
    ReasoningEffort(Seq<char>),
    OutputEffort(Seq<char>),
    Extra(int),
}

pub open spec fn field_view(f: BodyField) -> (Seq<char>, FieldKind) {
    (f.key@, match f.value {
        BodyValue::Model => FieldKind::Model,
        BodyValue::MaxTokens(n) => FieldKind::MaxTokens(n as int),
        BodyValue::Messages => FieldKind::Messages,
        BodyValue::Stream => FieldKind::Stream,
        BodyValue::System(s) => FieldKind::System(s@),
        BodyValue::Tools => FieldKind::Tools,
        BodyValue::Thinking => FieldKind::Thinking,
        BodyValue::ReasoningEffort(e) => FieldKind::ReasoningEffort(e@),
        BodyValue::OutputEffort(e) => FieldKind::OutputEffort(e@),
        BodyValue::Extra(i) => FieldKind::Extra(i as int),
    })
}

/// The fields every body starts with: the model (and for Anthropic the
/// token cap), the messages, the stream flag when streaming, the system
/// prompt (Anthropic, when not empty), the tools when there are any, and
/// the thinking settings when an effort is set.
pub open spec fn base_fields(
    format: ApiFormat,
    stream: bool,
    has_tools: bool,
    system: Seq<char>,
    effort: Option<Seq<char>>,
) -> Seq<(Seq<char>, FieldKind)> {
    let anthropic = format == ApiFormat::Anthropic;
    seq![("model"@, FieldKind::Model)]
        + (if anthropic {
        seq![("max_tokens"@, FieldKind::MaxTokens(ANTHROPIC_MAX_TOKENS as int))]
    } else {
        Seq::empty()
    })
        + seq![("messages"@, FieldKind::Messages)]
        + (if stream { seq![("stream"@, FieldKind::Stream)] } else { Seq::empty() })
        + (if anthropic && system.len() > 0 {
        seq![("system"@, FieldKind::System(system))]
    } else {
        Seq::empty()
    }) + (if has_tools { seq![("tools"@, FieldKind::Tools)] } else { Seq::empty() }) + match effort {
        Some(e) => if anthropic {
            seq![("thinking"@, FieldKind::Thinking), ("output_config"@, FieldKind::OutputEffort(e))]
        } else {
            seq![("thinking"@, FieldKind::Thinking), ("reasoning_effort"@, FieldKind::ReasoningEffort(e))]
        },
        None => Seq::empty(),
    }
}

/// The extra fields, each under its key, from position `from` on.
pub open spec fn extra_fields(keys: Seq<Seq<char>>, from: int) -> Seq<(Seq<char>, FieldKind)>
    decreases keys.len(),
{
    if keys.len() == 0 {
        Seq::empty()
    } else {
        extra_fields(keys.drop_last(), from).push((keys.last(), FieldKind::Extra(from + keys.len() - 1)))
    }
}

proof fn lemma_extra_fields_push(keys: Seq<Seq<char>>, k: Seq<char>)
    ensures
        extra_fields(keys.push(k), 0) == extra_fields(keys, 0).push((k, FieldKind::Extra(keys.len() as int))),
{
    assert(keys.push(k).drop_last() =~= keys);
}

/// The plan of a request body: the base fields, then the extra fields.
pub open spec fn body_plan(
    format: ApiFormat,
    stream: bool,
    has_tools: bool,
    system: Seq<char>,
    effort: Option<Seq<char>>,
    extra: Seq<Seq<char>>,
) -> Seq<(Seq<char>, FieldKind)> {
    base_fields(format, stream, has_tools, system, effort) + extra_fields(extra, 0)
}

} // verus!

