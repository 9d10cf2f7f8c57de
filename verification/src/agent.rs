//! The decisions of the agent loop: when to stop, how to recover from a
//! truncated or empty reply, how tool calls are tracked for stuck detection,
//! how a turn's messages are assembled, and when a run gives up.
//!
//! The loop itself (provider calls, hooks, tool execution) awaits outside
//! work; it calls these functions between those awaits.
use vstd::prelude::*;

use crate::error::Error;
use crate::history::{grown_by, History};
use crate::prompt::{prompt_text, Prompt};
use crate::text::{owned, push_str, spec_trim, trim, views};
use crate::types::{
    json_text, parse_json, spec_json_text, spec_parse_json, clone_calls, is_tool, AssistantMessage, FinishReason, LLMResponse, Message, MessageView,
    TimedMessage, ToolCall, ToolResult,
};

verus! {

/// How many recent tool-call signatures are kept for stuck detection.
pub const MAX_RECENT_CALLS: usize = 20;

/// Determines when the agent loop should terminate.
#[derive(Debug)]
pub enum StopCondition {
    /// Stop when the LLM returns a text response (no tool calls).
    OnText,
    /// Stop once at least N tool results are in the history.
    AfterNTools(usize),
    /// Stop when the same tool+args is called `max_repeats` times in a row
    /// (at least twice).
    OnStuck { max_repeats: usize },
    /// Never stop automatically — caller controls the loop via `step()`.
    Never,
    /// Stop when the caller's predicate over the response and the history
    /// holds; the predicate's verdict is handed to `should_stop`.
    Custom,
}

impl Default for StopCondition {
    fn default() -> (c: Self)
        ensures
            c is OnText,
    {
        StopCondition::OnText
    }
}

/// Number of tool-result messages in `h`.
pub open spec fn count_tool_messages(h: Seq<TimedMessage>) -> nat
    decreases h.len(),
{
    if h.len() == 0 {
        0
    } else {
        count_tool_messages(h.drop_last()) + if is_tool(h.last().message) { 1nat } else { 0nat }
    }
}

/// The run length that counts as stuck: `max_repeats`, but at least 2.
pub open spec fn stuck_window(max_repeats: usize) -> nat {
    if max_repeats < 2 { 2 } else { max_repeats as nat }
}

/// The last `n` entries of `recent` exist and are all the same.
pub open spec fn same_tail(recent: Seq<Seq<char>>, n: nat) -> bool {
    recent.len() >= n && forall|i: int| recent.len() - n <= i < recent.len() ==> #[trigger] recent[i]
        == recent.last()
}

/// The verdict of a stop condition on a response, the history after it,
/// the recent tool-call signatures, and (for `Custom`) the predicate's
/// verdict.
pub open spec fn spec_should_stop(
    c: StopCondition,
    reply: AssistantMessage,
    history: Seq<TimedMessage>,
    recent: Seq<Seq<char>>,
    custom: bool,
) -> bool {
    match c {
        StopCondition::OnText => !has_tool_calls(reply),
        StopCondition::AfterNTools(n) => count_tool_messages(history) >= n,
        StopCondition::OnStuck { max_repeats } => same_tail(recent, stuck_window(max_repeats)),
        StopCondition::Never => false,
        StopCondition::Custom => custom,
    }
}

impl StopCondition {
    /// Should the loop stop after `response`? `history` is the history
    /// after the response and its tool results were added, `recent_calls`
    /// the recent tool-call signatures, and `custom_verdict` what the
    /// caller's predicate said (only read for `Custom`).
    pub fn should_stop(
        &self,
        response: &LLMResponse,
        history: &[TimedMessage],
        recent_calls: &[String],
        custom_verdict: bool,
    ) -> (b: bool)
        ensures
            b == spec_should_stop(
                *self,
                response.message,
                history@,
                views(recent_calls@),
                custom_verdict,
            ),
    {
        match self {
            StopCondition::OnText => match &response.message.tool_calls {
                Some(calls) => calls.len() == 0,
                None => true,
            },
            StopCondition::AfterNTools(n) => {
                let mut count: usize = 0;
                let mut i: usize = 0;
                while i < history.len()
                    invariant
                        i <= history.len(),
                        count == count_tool_messages(history@.take(i as int)),
                        count <= i,
                    decreases history.len() - i,
                {
                    assert(history@.take(i + 1).drop_last() == history@.take(i as int));
                    if history[i].message.is_tool() {
                        count = count + 1;
                    }
                    i = i + 1;
                }
                assert(history@.take(history.len() as int) == history@);
                count >= *n
            },
            StopCondition::OnStuck { max_repeats } => {
                let ghost rv = views(recent_calls@);
                let n: usize = if *max_repeats < 2 { 2 } else { *max_repeats };
                let len = recent_calls.len();
                if len < n {
                    return false;
                }
                let last = &recent_calls[len - 1];
                let mut i: usize = len - n;
                while i < len
                    invariant
                        len - n <= i <= len,
                        len == recent_calls@.len(),
                        n >= 2,
                        *self == (StopCondition::OnStuck { max_repeats: *max_repeats }),
                        n == stuck_window(*max_repeats),
                        rv == views(recent_calls@),
                        *last == recent_calls@[len - 1],
                        forall|k: int| len - n <= k < i ==> #[trigger] rv[k] == rv.last(),
                    decreases len - i,
                {
                    if recent_calls[i] != *last {
                        assert(rv[i as int] == recent_calls@[i as int]@);
                        assert(rv.last() == recent_calls@[len - 1]@);
                        assert(rv[i as int] != rv.last());
                        assert(!same_tail(rv, n as nat));
                        return false;
                    }
                    i = i + 1;
                }
                true
            },
            StopCondition::Never => false,
            StopCondition::Custom => custom_verdict,
        }
    }
}

/// JSON arguments in a canonical compact form; text that is not JSON is
/// kept as it is.
pub open spec fn normalized_json(s: Seq<char>) -> Seq<char> {
    match spec_parse_json(s) {
        Some(v) => spec_json_text(v),
        None => s,
    }
}

/// Canonical compact form of JSON text, or the text itself if it does not
/// parse.
pub fn normalize_json(json: &str) -> (r: String)
    ensures
        r@ == normalized_json(json@),
{
    match parse_json(json) {
        Some(v) => json_text(&v),
        None => owned(json),
    }
}

/// The signature of a tool call for stuck detection: its name, a colon,
/// and its normalized arguments.
pub open spec fn call_signature(c: ToolCall) -> Seq<char> {
    c.function.name@ + ":"@ + normalized_json(c.function.arguments@)
}

/// The stuck-detection signatures of `calls`, in order.
pub open spec fn signatures(calls: Seq<ToolCall>) -> Seq<Seq<char>> {
    calls.map_values(|c: ToolCall| call_signature(c))
}

/// The last `n` entries of `s` (all of them if there are fewer).
pub open spec fn keep_last<T>(s: Seq<T>, n: nat) -> Seq<T> {
    if s.len() > n { s.skip(s.len() - n) } else { s }
}

/// What a recovery check decided.
#[derive(Debug, Clone, Copy, PartialEq, Eq)]
pub enum Recovery {
    /// No recovery: go on to the stop check.
    Proceed,
    /// The reply was cut off by the length limit: a `"continue"` user
    /// message is to be added and the loop goes on.
    ContinueLength,
    /// The reply was empty: the loop goes on and asks again.
    RetryEmpty,
}

/// The reply is blank (only white space).
pub open spec fn is_blank(content: Seq<char>) -> bool {
    spec_trim(content).len() == 0
}

/// The reply carries at least one tool call.
pub open spec fn has_tool_calls(m: AssistantMessage) -> bool {
    m.tool_calls matches Some(v) && v@.len() > 0
}

/// The recovery decision and the new (length continuations, empty
/// retries) counters.
pub open spec fn spec_recover(
    finish: FinishReason,
    blank: bool,
    tools: bool,
    lc: nat,
    max_lc: nat,
    er: nat,
    max_er: nat,
) -> (Recovery, nat, nat) {
    if finish is Length && !blank && lc < max_lc {
        (Recovery::ContinueLength, lc + 1, er)
    } else {
        let lc2 = if finish is Length { lc } else { 0 };
        if blank && !tools && er < max_er {
            (Recovery::RetryEmpty, lc2, er + 1)
        } else if !blank || tools {
            (Recovery::Proceed, lc2, 0)
        } else {
            (Recovery::Proceed, lc2, er)
        }
    }
}

/// The content of the newest assistant message in `h`, if any.
pub open spec fn last_assistant_content(h: Seq<TimedMessage>) -> Option<Seq<char>>
    decreases h.len(),
{
    if h.len() == 0 {
        None
    } else {
        match h.last().message {
            Message::Assistant(a) => Some(a.content@),
            _ => last_assistant_content(h.drop_last()),
        }
    }
}

/// What a run that hit its iteration cap returns: the newest assistant
/// reply, or a fixed notice when there is none.
pub open spec fn fallback_text(h: Seq<TimedMessage>) -> Seq<char> {
    match last_assistant_content(h) {
        Some(c) => c,
        None => "Max iterations reached"@,
    }
}

proof fn lemma_chain_equal(s: Seq<Seq<char>>, lo: int, i: int)
    requires
        0 <= lo <= i < s.len(),
        forall|k: int| lo <= k < s.len() - 1 ==> #[trigger] s[k] == s[k + 1],
    ensures
        s[i] == s.last(),
    decreases s.len() - i,
{
    if i < s.len() - 1 {
        lemma_chain_equal(s, lo, i + 1);
        assert(s[i] == s[i + 1]);
    }
}

/// `OnStuck` stops exactly when at least `max(max_repeats, 2)` signatures
/// were recorded and, over the last that many, each one equals the next:
/// a run of one repeated call. A different signature anywhere in that
/// window keeps the loop going.
pub proof fn law_stuck_means_one_repeated_call(
    max_repeats: usize,
    reply: AssistantMessage,
    history: Seq<TimedMessage>,
    recent: Seq<Seq<char>>,
    custom: bool,
)
    ensures
        ({
            let n: int = if max_repeats < 2 { 2 } else { max_repeats as int };
            spec_should_stop(StopCondition::OnStuck { max_repeats }, reply, history, recent, custom)
                <==> (recent.len() >= n && forall|i: int|
                recent.len() - n <= i < recent.len() - 1 ==> #[trigger] recent[i] == recent[i + 1])
        }),
        forall|j: int|
            recent.len() - (if max_repeats < 2 { 2 } else { max_repeats as int }) <= j < recent.len()
                && 0 <= j && #[trigger] recent[j] != recent.last() ==> !spec_should_stop(
                StopCondition::OnStuck { max_repeats },
                reply,
                history,
                recent,
                custom,
            ),
{
    let n: int = if max_repeats < 2 { 2 } else { max_repeats as int };
    let stop = spec_should_stop(StopCondition::OnStuck { max_repeats }, reply, history, recent, custom);
    let chain = recent.len() >= n && forall|i: int|
        recent.len() - n <= i < recent.len() - 1 ==> #[trigger] recent[i] == recent[i + 1];
    if chain {
        assert forall|i: int| recent.len() - n <= i < recent.len() implies #[trigger] recent[i]
            == recent.last() by {
            lemma_chain_equal(recent, recent.len() - n, i);
        }
        assert(stop);
    }
    if stop {
        assert forall|i: int| recent.len() - n <= i < recent.len() - 1 implies #[trigger] recent[i]
            == recent[i + 1] by {
            assert(recent[i] == recent.last());
            assert(recent[i + 1] == recent.last());
        }
    }
}

proof fn lemma_newest_reply(h0: Seq<TimedMessage>, e: TimedMessage, rest: Seq<TimedMessage>)
    requires
        e.message is Assistant,
        forall|i: int| 0 <= i < rest.len() ==> !(#[trigger] rest[i].message is Assistant),
    ensures
        e.message matches Message::Assistant(a) && last_assistant_content(h0.push(e) + rest) == Some(
            a.content@,
        ),
    decreases rest.len(),
{
    if rest.len() == 0 {
        assert(h0.push(e) + rest =~= h0.push(e));
    } else {
        let h = h0.push(e) + rest;
        assert(h.drop_last() =~= h0.push(e) + rest.drop_last());
        assert(h.last() == rest.last());
        assert(!(rest[rest.len() - 1].message is Assistant));
        lemma_newest_reply(h0, e, rest.drop_last());
    }
}

proof fn lemma_no_reply(h: Seq<TimedMessage>)
    requires
        forall|i: int| 0 <= i < h.len() ==> !(#[trigger] h[i].message is Assistant),
    ensures
        last_assistant_content(h) is None,
    decreases h.len(),
{
    if h.len() > 0 {
        assert(!(h[h.len() - 1].message is Assistant));
        lemma_no_reply(h.drop_last());
    }
}

/// A run that gives up returns the newest assistant reply: when the
/// history is any `h0`, then an assistant reply, then messages none of
/// which is an assistant reply, the fallback is that reply's content, and
/// a history without assistant replies gives the fixed notice.
pub proof fn law_fallback_is_newest_reply(h0: Seq<TimedMessage>, e: TimedMessage, rest: Seq<TimedMessage>)
    ensures
        e.message matches Message::Assistant(a) ==> ((forall|i: int|
            0 <= i < rest.len() ==> !(#[trigger] rest[i].message is Assistant)) ==> fallback_text(
            h0.push(e) + rest,
        ) == a.content@),
        (forall|i: int| 0 <= i < rest.len() ==> !(#[trigger] rest[i].message is Assistant))
            ==> fallback_text(rest) == "Max iterations reached"@,
{
    if e.message is Assistant && (forall|i: int|
        0 <= i < rest.len() ==> !(#[trigger] rest[i].message is Assistant)) {
        lemma_newest_reply(h0, e, rest);
    }
    if forall|i: int| 0 <= i < rest.len() ==> !(#[trigger] rest[i].message is Assistant) {
        lemma_no_reply(rest);
    }
}

/// The user message that `chat` adds: the runtime context, then the user's
/// content on the next line (just the context when the content is empty).
pub open spec fn chat_text(ctx: Seq<char>, content: Seq<char>) -> Seq<char> {
    if content.len() == 0 { ctx } else { ctx + "\n"@ + content }
}

/// No hook refused: none of the verdicts is `Ok(false)`. A hook that
/// failed refuses nothing, so one hook's error does not sway the outcome.
pub open spec fn none_refuse(verdicts: Seq<Result<bool, Error>>) -> bool {
    forall|i: int| 0 <= i < verdicts.len() ==> !(#[trigger] verdicts[i] matches Ok(false))
}

/// A failed `on_message` hook counts as its default, `Ok(true)`.
pub open spec fn message_defaults(v: Seq<Result<bool, Error>>) -> Seq<Result<bool, Error>> {
    Seq::new(v.len(), |i: int| if v[i] is Err { Ok(true) } else { v[i] })
}

/// A failed `on_stop_check` hook counts as its default: `Ok` of the stop
/// verdict it was handed, which is the stop condition's verdict as long as
/// no earlier hook refused.
pub open spec fn stop_defaults(v: Seq<Result<bool, Error>>, should_stop: bool) -> Seq<Result<bool, Error>> {
    Seq::new(
        v.len(),
        |i: int| if v[i] is Err { Ok(should_stop && none_refuse(v.take(i))) } else { v[i] },
    )
}

/// A hook that fails changes nothing: whether a reply is kept, and whether
/// a step stops, come out as if every failed hook had returned its
/// default; and one `Ok(false)` from an `on_stop_check` hook is enough to
/// keep the loop going.
pub proof fn law_failed_hooks_change_nothing(
    message_verdicts: Seq<Result<bool, Error>>,
    stop_verdicts: Seq<Result<bool, Error>>,
    should_stop: bool,
)
    ensures
        none_refuse(message_verdicts) == none_refuse(message_defaults(message_verdicts)),
        (should_stop && none_refuse(stop_verdicts)) == (should_stop && none_refuse(
            stop_defaults(stop_verdicts, should_stop),
        )),
        (exists|k: int| 0 <= k < stop_verdicts.len() && #[trigger] stop_verdicts[k] matches Ok(false))
            ==> !(should_stop && none_refuse(stop_verdicts)),
{
    let m = message_defaults(message_verdicts);
    if !none_refuse(message_verdicts) {
        let k = choose|k: int| 0 <= k < message_verdicts.len() && #[trigger] message_verdicts[k] matches Ok(false);
        assert(m[k] matches Ok(false));
    } else {
        assert forall|i: int| 0 <= i < m.len() implies !(#[trigger] m[i] matches Ok(false)) by {
            assert(!(message_verdicts[i] matches Ok(false)));
        }
    }
    let d = stop_defaults(stop_verdicts, should_stop);
    if should_stop {
        if !none_refuse(stop_verdicts) {
            let k = choose|k: int| 0 <= k < stop_verdicts.len() && #[trigger] stop_verdicts[k] matches Ok(false);
            assert(d[k] matches Ok(false));
        } else {
            assert forall|i: int| 0 <= i < d.len() implies !(#[trigger] d[i] matches Ok(false)) by {
                assert(!(stop_verdicts[i] matches Ok(false)));
                if stop_verdicts[i] is Err {
                    assert forall|j: int| 0 <= j < stop_verdicts.take(i).len() implies !(
                    #[trigger] stop_verdicts.take(i)[j] matches Ok(false)) by {
                        assert(stop_verdicts.take(i)[j] == stop_verdicts[j]);
                    }
                }
            }
        }
    }
}

/// The tool calls a reply carries (none when it has no list).
pub open spec fn reply_calls(m: AssistantMessage) -> Seq<ToolCall> {
    match m.tool_calls {
        Some(v) => v@,
        None => Seq::empty(),
    }
}

/// The tokens a response reports (0 when it reports none).
pub open spec fn usage_tokens(response: LLMResponse) -> nat {
    match response.usage {
        Some(u) => u.total_tokens as nat,
        None => 0,
    }
}

/// The history entry of a tool result.
pub open spec fn tool_entry(r: ToolResult) -> TimedMessage {
    TimedMessage { message: Message::Tool(r.tool_message), timestamp: r.timestamp, elapsed: r.elapsed }
}

/// The history entries of tool results, in the same order.
pub open spec fn tool_entries(results: Seq<ToolResult>) -> Seq<TimedMessage>
    decreases results.len(),
{
    if results.len() == 0 {
        Seq::empty()
    } else {
        tool_entries(results.drop_last()).push(tool_entry(results.last()))
    }
}

/// The store of `h` after the tool results of a step, in call order.
pub open spec fn with_results<H: History + ?Sized>(h: &H, results: Seq<ToolResult>) -> Seq<TimedMessage> {
    grown_by(h, h.messages(), tool_entries(results))
}

/// What a run does next.
#[derive(Debug)]
pub enum RunAction {
    /// Take another step.
    Step,
    /// The iteration cap is reached: end the run with this text.
    GiveUp(String),
}

/// The loop state of an agent: its prompt, model, stop condition, stuck
/// tracking, retry budgets and counters.
pub struct AgentCore {
    prompt: Prompt,
    model: String,
    stop_condition: StopCondition,
    recent_tool_calls: Vec<String>,
    max_iterations: usize,
    empty_retries: usize,
    max_empty_retries: usize,
    length_continues: usize,
    max_length_continues: usize,
    step_count: usize,
    total_tokens: u64,
}

impl AgentCore {
    /// At most `MAX_RECENT_CALLS` signatures are kept, and neither retry
    /// counter runs past its budget.
    #[verifier::type_invariant]
    spec fn bounded(self) -> bool {
        &&& self.recent_tool_calls@.len() <= MAX_RECENT_CALLS
        &&& self.empty_retries <= self.max_empty_retries
        &&& self.length_continues <= self.max_length_continues
    }

    pub closed spec fn tools_layer(&self) -> Seq<char> {
        self.prompt.tools_layer()
    }

    pub closed spec fn model_name(&self) -> Seq<char> {
        self.model@
    }

    pub closed spec fn condition(&self) -> StopCondition {
        self.stop_condition
    }

    pub closed spec fn recent(&self) -> Seq<Seq<char>> {
        views(self.recent_tool_calls@)
    }

    pub closed spec fn iteration_cap(&self) -> nat {
        self.max_iterations as nat
    }

    pub closed spec fn steps(&self) -> nat {
        self.step_count as nat
    }

    pub closed spec fn tokens(&self) -> nat {
        self.total_tokens as nat
    }

    pub closed spec fn empty_retry_count(&self) -> nat {
        self.empty_retries as nat
    }

    pub closed spec fn empty_retry_budget(&self) -> nat {
        self.max_empty_retries as nat
    }

    pub closed spec fn length_continue_count(&self) -> nat {
        self.length_continues as nat
    }

    pub closed spec fn length_continue_budget(&self) -> nat {
        self.max_length_continues as nat
    }

    /// The settings and counters other than the step and token counters and
    /// the stuck tracking are those of `other`.
    pub open spec fn same_settings(&self, other: &Self) -> bool {
        &&& self.tools_layer() == other.tools_layer()
        &&& self.model_name() == other.model_name()
        &&& self.condition() == other.condition()
        &&& self.iteration_cap() == other.iteration_cap()
        &&& self.empty_retry_budget() == other.empty_retry_budget()
        &&& self.length_continue_budget() == other.length_continue_budget()
    }

    /// A fresh loop state: no model, stop on text, at most 100 iterations,
    /// 2 empty retries and 3 length continuations.
    pub fn new() -> (a: Self)
        ensures
            a.tools_layer() == Seq::<char>::empty(),
            a.model_name() == Seq::<char>::empty(),
            a.condition() is OnText,
            a.recent() == Seq::<Seq<char>>::empty(),
            a.iteration_cap() == 100,
            a.empty_retry_budget() == 2,
            a.length_continue_budget() == 3,
            a.empty_retry_count() == 0,
            a.length_continue_count() == 0,
            a.steps() == 0,
            a.tokens() == 0,
    {
        let a = AgentCore {
            prompt: Prompt::new(),
            model: String::new(),
            stop_condition: StopCondition::OnText,
            recent_tool_calls: Vec::new(),
            max_iterations: 100,
            empty_retries: 0,
            max_empty_retries: 2,
            length_continues: 0,
            max_length_continues: 3,
            step_count: 0,
            total_tokens: 0,
        };
        assert(views(a.recent_tool_calls@) =~= Seq::<Seq<char>>::empty());
        a
    }

    /// Sets the model name used in the runtime context.
    pub fn set_model(&mut self, model: &str)
        ensures
            final(self).model_name() == model@,
            final(self).tools_layer() == old(self).tools_layer(),
            final(self).condition() == old(self).condition(),
            final(self).iteration_cap() == old(self).iteration_cap(),
    {
        proof { use_type_invariant(&*self); }
        self.model = owned(model);
    }

    /// Caps the number of steps of a run (0 = no cap).
    pub fn set_max_iterations(&mut self, n: usize)
        ensures
            final(self).iteration_cap() == n,
            final(self).model_name() == old(self).model_name(),
            final(self).condition() == old(self).condition(),
            final(self).tools_layer() == old(self).tools_layer(),
    {
        proof { use_type_invariant(&*self); }
        self.max_iterations = n;
    }

    /// Replaces the stop condition.
    pub fn set_stop_condition(&mut self, c: StopCondition)
        ensures
            final(self).condition() == c,
            final(self).model_name() == old(self).model_name(),
            final(self).iteration_cap() == old(self).iteration_cap(),
            final(self).tools_layer() == old(self).tools_layer(),
    {
        proof { use_type_invariant(&*self); }
        self.stop_condition = c;
    }

    /// Freezes the JSON list of tool definitions into the prompt.
    pub fn set_tools_json(&mut self, json: &str)
        ensures
            final(self).tools_layer() == crate::prompt::tools_block(json@),
            final(self).model_name() == old(self).model_name(),
            final(self).condition() == old(self).condition(),
            final(self).iteration_cap() == old(self).iteration_cap(),
    {
        proof { use_type_invariant(&*self); }
        let mut p = Prompt::new();
        std::mem::swap(&mut p, &mut self.prompt);
        p.freeze_tools(json);
        self.prompt = p;
    }

    /// The model name.
    pub fn model(&self) -> (m: &str)
        ensures
            m@ == self.model_name(),
    {
        self.model.as_str()
    }

    /// The stop condition.
    pub fn stop_condition(&self) -> (c: &StopCondition)
        ensures
            *c == self.condition(),
    {
        &self.stop_condition
    }

    /// The recent tool-call signatures, oldest first.
    pub fn recent_tool_calls(&self) -> (r: &[String])
        ensures
            views(r@) == self.recent(),
    {
        self.recent_tool_calls.as_slice()
    }

    /// Steps begun so far.
    pub fn step_count(&self) -> (n: usize)
        ensures
            n == self.steps(),
    {
        self.step_count
    }

    /// Total tokens consumed across all LLM calls.
    pub fn total_tokens_used(&self) -> (n: u64)
        ensures
            n == self.tokens(),
    {
        self.total_tokens
    }

    /// Begins a step: builds the system prompt from the cached layers and
    /// the given extensions, and returns the turn's messages (the system
    /// prompt, then every message of the history). The step counter moves
    /// on by one.
    pub fn begin_step<H: History + ?Sized>(&mut self, history: &H, extensions: &Vec<String>) -> (turn: Vec<Message>)
        requires
            old(self).steps() < usize::MAX,
        ensures
            turn@.len() == history.messages().len() + 1,
            turn@[0]@ == MessageView::System(
                prompt_text(old(self).tools_layer(), views(extensions@)),
            ),
            forall|i: int|
                0 <= i < history.messages().len() ==> #[trigger] turn@[i + 1]@
                    == history.messages()[i].message@,
            final(self).steps() == old(self).steps() + 1,
            final(self).same_settings(&*old(self)),
            final(self).recent() == old(self).recent(),
            final(self).tokens() == old(self).tokens(),
            final(self).empty_retry_count() == old(self).empty_retry_count(),
            final(self).length_continue_count() == old(self).length_continue_count(),
    {
        proof { use_type_invariant(&*self); }
        let mut p = Prompt::new();
        std::mem::swap(&mut p, &mut self.prompt);
        let text = p.build(extensions);
        self.prompt = p;
        let mut turn: Vec<Message> = Vec::new();
        turn.push(Message::System(crate::types::SystemMessage { content: text }));
        let msgs = history.get_all();
        let mut i: usize = 0;
        while i < msgs.len()
            invariant
                i <= msgs.len(),
                msgs@ == history.messages(),
                turn@.len() == i + 1,
                turn@[0]@ == MessageView::System(
                    prompt_text(old(self).tools_layer(), views(extensions@)),
                ),
                forall|k: int| 0 <= k < i ==> #[trigger] turn@[k + 1]@ == msgs@[k].message@,
            decreases msgs.len() - i,
        {
            turn.push(msgs[i].message.clone());
            i = i + 1;
        }
        self.step_count = self.step_count + 1;
        turn
    }

    /// Adds the response's token usage, if reported, to the total.
    pub fn record_usage(&mut self, response: &LLMResponse)
        requires
            response.usage matches Some(u) ==> old(self).tokens() + u.total_tokens <= u64::MAX,
        ensures
            final(self).tokens() == old(self).tokens() + match response.usage {
                Some(u) => u.total_tokens as nat,
                None => 0nat,
            },
            final(self).same_settings(&*old(self)),
            final(self).steps() == old(self).steps(),
            final(self).recent() == old(self).recent(),
            final(self).empty_retry_count() == old(self).empty_retry_count(),
            final(self).length_continue_count() == old(self).length_continue_count(),
    {
        proof { use_type_invariant(&*self); }
        if let Some(u) = &response.usage {
            self.total_tokens = self.total_tokens + u.total_tokens as u64;
        }
    }

    /// Records the signatures of a turn's tool calls for stuck detection,
    /// keeping the newest `MAX_RECENT_CALLS`.
    pub fn record_tool_calls(&mut self, calls: &Vec<ToolCall>)
        ensures
            final(self).recent() == keep_last(
                old(self).recent() + signatures(calls@),
                MAX_RECENT_CALLS as nat,
            ),
            final(self).recent().len() <= MAX_RECENT_CALLS,
            final(self).same_settings(&*old(self)),
            final(self).steps() == old(self).steps(),
            final(self).tokens() == old(self).tokens(),
            final(self).empty_retry_count() == old(self).empty_retry_count(),
            final(self).length_continue_count() == old(self).length_continue_count(),
    {
        proof { use_type_invariant(&*self); }
        let ghost sigs = signatures(calls@);
        let ghost start = self.recent();
        let mut recent: Vec<String> = Vec::new();
        std::mem::swap(&mut recent, &mut self.recent_tool_calls);
        assert(views(recent@) == start);
        let mut i: usize = 0;
        while i < calls.len()
            invariant
                i <= calls.len(),
                sigs == signatures(calls@),
                views(recent@) == start + sigs.take(i as int),
            decreases calls.len() - i,
        {
            let call = &calls[i];
            let mut sig = call.function.name.clone();
            push_str(&mut sig, ":");
            let norm = normalize_json(call.function.arguments.as_str());
            push_str(&mut sig, norm.as_str());
            let ghost before = recent@;
            recent.push(sig);
            proof {
                assert(views(recent@) =~= views(before).push(sig@));
                assert(sigs.take(i + 1) =~= sigs.take(i as int).push(sigs[i as int]));
                assert(start + sigs.take(i + 1) =~= (start + sigs.take(i as int)).push(sigs[i as int]));
            }
            i = i + 1;
        }
        assert(sigs.take(calls.len() as int) == sigs);
        let ghost all = start + sigs;
        if recent.len() > MAX_RECENT_CALLS {
            let cut = recent.len() - MAX_RECENT_CALLS;
            let ghost before = recent@;
            let tail = recent.split_off(cut);
            proof {
                assert(views(tail@) =~= all.skip(cut as int));
            }
            self.recent_tool_calls = tail;
        } else {
            self.recent_tool_calls = recent;
        }
    }

    /// Length continuation or empty-reply retry. A reply cut off by the
    /// length limit with some content asks for a continuation while that
    /// budget lasts; a blank reply without tool calls is retried while that
    /// budget lasts. Any other reply resets the counters as the loop goes
    /// on.
    pub fn try_recover(&mut self, response: &LLMResponse) -> (r: Recovery)
        ensures
            (r, final(self).length_continue_count(), final(self).empty_retry_count()) == spec_recover(
                response.finish_reason,
                is_blank(response.message.content@),
                has_tool_calls(response.message),
                old(self).length_continue_count(),
                old(self).length_continue_budget(),
                old(self).empty_retry_count(),
                old(self).empty_retry_budget(),
            ),
            final(self).length_continue_count() <= final(self).length_continue_budget(),
            final(self).empty_retry_count() <= final(self).empty_retry_budget(),
            final(self).same_settings(&*old(self)),
            final(self).steps() == old(self).steps(),
            final(self).tokens() == old(self).tokens(),
            final(self).recent() == old(self).recent(),
    {
        proof { use_type_invariant(&*self); }
        let trimmed = trim(response.message.content.as_str());
        let is_empty = trimmed.as_str().is_empty();
        let has_tools = match &response.message.tool_calls {
            Some(c) => c.len() > 0,
            None => false,
        };
        let is_length = match response.finish_reason {
            FinishReason::Length => true,
            _ => false,
        };
        if is_length {
            if !is_empty && self.length_continues < self.max_length_continues {
                self.length_continues = self.length_continues + 1;
                return Recovery::ContinueLength;
            }
        } else {
            self.length_continues = 0;
        }
        if is_empty && !has_tools && self.empty_retries < self.max_empty_retries {
            self.empty_retries = self.empty_retries + 1;
            return Recovery::RetryEmpty;
        }
        if !is_empty || has_tools {
            self.empty_retries = 0;
        }
        Recovery::Proceed
    }

    /// Takes in a reply: adds its reported tokens to the total, adds
    /// `entry` (the reply's history entry) to the history unless a hook
    /// refused it (`keep` false), records the signatures of its tool calls
    /// for stuck detection, and returns those calls.
    pub fn after_reply<H: History + ?Sized>(
        &mut self,
        history: &mut H,
        response: &LLMResponse,
        entry: TimedMessage,
        keep: bool,
    ) -> (calls: Vec<ToolCall>)
        requires
            response.usage matches Some(u) ==> old(self).tokens() + u.total_tokens <= u64::MAX,
        ensures
            final(history).messages() == if keep {
                old(history).grown(old(history).messages(), entry)
            } else {
                old(history).messages()
            },
            forall|msgs: Seq<TimedMessage>, m: TimedMessage|
                #[trigger] final(history).grown(msgs, m) == old(history).grown(msgs, m),
            calls@ == reply_calls(response.message),
            final(self).tokens() == old(self).tokens() + usage_tokens(*response),
            final(self).recent() == keep_last(
                old(self).recent() + signatures(calls@),
                MAX_RECENT_CALLS as nat,
            ),
            final(self).same_settings(&*old(self)),
            final(self).steps() == old(self).steps(),
            final(self).empty_retry_count() == old(self).empty_retry_count(),
            final(self).length_continue_count() == old(self).length_continue_count(),
    {
        self.record_usage(response);
        if keep {
            history.add(entry);
        }
        let calls = match &response.message.tool_calls {
            Some(c) => clone_calls(c),
            None => Vec::new(),
        };
        self.record_tool_calls(&calls);
        calls
    }

    /// Ends a step after its tools ran: adds the tool results to the
    /// history in call order, then decides on recovery; a reply cut off by
    /// the length limit gets a `"continue"` user message after them.
    pub fn finish_step<H: History + ?Sized>(
        &mut self,
        history: &mut H,
        response: &LLMResponse,
        results: Vec<ToolResult>,
    ) -> (r: Recovery)
        ensures
            (r, final(self).length_continue_count(), final(self).empty_retry_count()) == spec_recover(
                response.finish_reason,
                is_blank(response.message.content@),
                has_tool_calls(response.message),
                old(self).length_continue_count(),
                old(self).length_continue_budget(),
                old(self).empty_retry_count(),
                old(self).empty_retry_budget(),
            ),
            !(r is ContinueLength) ==> final(history).messages() == with_results(old(history), results@),
            r is ContinueLength ==> exists|e: TimedMessage|
                #![trigger old(history).grown(with_results(old(history), results@), e)]
                e.message@ == MessageView::User("continue"@) && final(history).messages()
                    == old(history).grown(with_results(old(history), results@), e),
            forall|msgs: Seq<TimedMessage>, m: TimedMessage|
                #[trigger] final(history).grown(msgs, m) == old(history).grown(msgs, m),
            final(self).same_settings(&*old(self)),
            final(self).steps() == old(self).steps(),
            final(self).tokens() == old(self).tokens(),
            final(self).recent() == old(self).recent(),
    {
        let ghost m0 = history.messages();
        let n = results.len();
        let mut i: usize = 0;
        while i < n
            invariant
                i <= n,
                n == results@.len(),
                m0 == old(history).messages(),
                history.messages() == grown_by(old(history), m0, tool_entries(results@.take(i as int))),
                forall|msgs: Seq<TimedMessage>, m: TimedMessage|
                    #[trigger] history.grown(msgs, m) == old(history).grown(msgs, m),
            decreases n - i,
        {
            let r = results[i].clone();
            let entry = tool_result_entry(r);
            proof {
                let es = tool_entries(results@.take(i as int));
                assert(results@.take(i + 1).drop_last() == results@.take(i as int));
                assert(results@.take(i + 1).last() == results@[i as int]);
                assert(entry == tool_entry(results@[i as int]));
                assert(tool_entries(results@.take(i + 1)) == es.push(entry));
                assert(es.push(entry).drop_last() == es);
            }
            history.add(entry);
            i = i + 1;
        }
        assert(results@.take(n as int) == results@);
        let r = self.try_recover(response);
        if let Recovery::ContinueLength = r {
            let c = continue_message();
            let ghost cv = c;
            history.add(c);
            assert(history.messages() == old(history).grown(with_results(old(history), results@), cv));
        }
        r
    }

    /// What a run does after `iterations` steps: give up with the newest
    /// assistant reply (or a fixed notice) once the cap is reached, else
    /// take another step.
    pub fn run_action(&self, iterations: usize, history: &[TimedMessage]) -> (a: RunAction)
        ensures
            a is GiveUp <==> (self.iteration_cap() > 0 && iterations >= self.iteration_cap()),
            a matches RunAction::GiveUp(t) ==> t@ == fallback_text(history@),
    {
        if self.iterations_exhausted(iterations) {
            RunAction::GiveUp(fallback_content(history))
        } else {
            RunAction::Step
        }
    }

    /// Has a run that already took `iterations` steps reached its cap?
    pub fn iterations_exhausted(&self, iterations: usize) -> (b: bool)
        ensures
            b == (self.iteration_cap() > 0 && iterations >= self.iteration_cap()),
    {
        self.max_iterations > 0 && iterations >= self.max_iterations
    }
}

/// Do the hooks' verdicts let the message or the stop stand? Only an
/// `Ok(false)` refuses; a failed hook is passed over.
pub fn hooks_allow(verdicts: &Vec<Result<bool, Error>>) -> (b: bool)
    ensures
        b == none_refuse(verdicts@),
{
    let mut i: usize = 0;
    while i < verdicts.len()
        invariant
            i <= verdicts@.len(),
            forall|k: int| 0 <= k < i ==> !(#[trigger] verdicts@[k] matches Ok(false)),
        decreases verdicts.len() - i,
    {
        if let Ok(false) = &verdicts[i] {
            return false;
        }
        i = i + 1;
    }
    true
}

/// What a step that went on to its stop check returns: the reply's content
/// when the stop condition held and no `on_stop_check` hook refused,
/// nothing (go on) otherwise.
pub fn step_outcome(
    response: &LLMResponse,
    should_stop: bool,
    stop_verdicts: &Vec<Result<bool, Error>>,
) -> (r: Option<String>)
    ensures
        r is Some <==> should_stop && none_refuse(stop_verdicts@),
        r matches Some(c) ==> c@ == response.message.content@,
{
    if should_stop && hooks_allow(stop_verdicts) {
        Some(response.message.content.clone())
    } else {
        None
    }
}

/// The user message that asks the model to continue a truncated reply.
pub fn continue_message() -> (t: TimedMessage)
    ensures
        t.message@ == MessageView::User("continue"@),
{
    TimedMessage::new(Message::user("continue"))
}

/// The history entry for an assistant reply that took `elapsed`.
pub fn assistant_entry(response: &LLMResponse, elapsed: std::time::Duration) -> (t: TimedMessage)
    ensures
        t.message@ == MessageView::Assistant(response.message@),
        t.elapsed == elapsed,
{
    TimedMessage {
        message: Message::Assistant(response.message.clone()),
        timestamp: crate::types::now(),
        elapsed,
    }
}

/// The history entry for a tool result: its message, stamped with the
/// result's time and duration.
pub fn tool_result_entry(result: ToolResult) -> (t: TimedMessage)
    ensures
        t.message == Message::Tool(result.tool_message),
        t.timestamp == result.timestamp,
        t.elapsed == result.elapsed,
{
    TimedMessage { message: Message::Tool(result.tool_message), timestamp: result.timestamp, elapsed: result.elapsed }
}

/// What a run that hit its iteration cap returns.
pub fn fallback_content(history: &[TimedMessage]) -> (r: String)
    ensures
        r@ == fallback_text(history@),
{
    let mut i: usize = history.len();
    assert(history@.take(i as int) == history@);
    while i > 0
        invariant
            i <= history.len(),
            last_assistant_content(history@) == last_assistant_content(history@.take(i as int)),
        decreases i,
    {
        assert(history@.take(i as int).drop_last() == history@.take(i - 1));
        assert(history@.take(i as int).last() == history@[i - 1]);
        if let Message::Assistant(a) = &history[i - 1].message {
            return a.content.clone();
        }
        i = i - 1;
    }
    owned("Max iterations reached")
}

/// The user message that `chat` adds for `content`.
pub fn chat_message(ctx: &str, content: &str) -> (r: String)
    ensures
        r@ == chat_text(ctx@, content@),
{
    if content.is_empty() {
        owned(ctx)
    } else {
        let mut r = owned(ctx);
        push_str(&mut r, "\n");
        push_str(&mut r, content);
        r
    }
}

} // verus!
