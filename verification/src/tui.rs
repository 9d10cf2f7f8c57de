//! State of the terminal chat UI: messages, input, scroll position and
//! status — no terminal I/O here. Also the key handling and the lines the
//! chat panel shows.
use vstd::prelude::*;

use crate::error::{error_text, Error};
use crate::text::{decimal, owned, push_decimal, push_str, spec_lines, spec_trim, split_lines, trim};

verus! {

/// Who wrote a message of the chat panel.
#[derive(Clone, Copy, Debug, PartialEq, Eq, Structural)]
pub enum Role {
    User,
    Assistant,
    System,
}

/// A single message in the chat history.
#[derive(Debug)]
pub struct Message {
    pub role: Role,
    pub content: String,
}

impl Clone for Message {
    fn clone(&self) -> (r: Self)
        ensures
            r == *self,
    {
        Message { role: self.role, content: self.content.clone() }
    }
}

/// Input mode determines what the input area is doing.
#[derive(Clone, Copy, Debug, PartialEq, Eq, Structural)]
pub enum InputMode {
    /// Normal text input — user is typing a message
    Normal,
    /// Agent is processing — input is read-only
    Processing,
}

/// Scroll position of the message view.
#[derive(Debug)]
pub struct ScrollState {
    /// Total line count in the message area
    pub total_lines: usize,
    /// Current scroll offset (0 = bottom/newest)
    pub offset: usize,
    /// Viewport height in lines
    pub viewport_height: usize,
}

impl Clone for ScrollState {
    fn clone(&self) -> (r: Self)
        ensures
            r == *self,
    {
        ScrollState {
            total_lines: self.total_lines,
            offset: self.offset,
            viewport_height: self.viewport_height,
        }
    }
}

/// The largest offset: the lines that do not fit in the viewport.
pub open spec fn max_offset(s: ScrollState) -> nat {
    if s.total_lines > s.viewport_height { (s.total_lines - s.viewport_height) as nat } else { 0 }
}

/// The offset after scrolling up by `n`: `n` lines further from the
/// bottom, but never past the largest offset.
pub open spec fn offset_after_up(s: ScrollState, n: nat) -> nat {
    if s.offset + n <= max_offset(s) { (s.offset + n) as nat } else { max_offset(s) }
}

/// The offset after scrolling down by `n`: `n` lines closer to the bottom,
/// never below it.
pub open spec fn offset_after_down(s: ScrollState, n: nat) -> nat {
    if s.offset >= n { (s.offset - n) as nat } else { 0 }
}

impl ScrollState {
    pub fn new() -> (s: Self)
        ensures
            s.total_lines == 0,
            s.offset == 0,
            s.viewport_height == 1,
    {
        ScrollState { total_lines: 0, offset: 0, viewport_height: 1 }
    }

    /// Scroll up by `n` lines, clamped.
    pub fn scroll_up(&mut self, n: usize)
        requires
            old(self).offset + n <= usize::MAX,
        ensures
            final(self).offset == offset_after_up(*old(self), n as nat),
            final(self).total_lines == old(self).total_lines,
            final(self).viewport_height == old(self).viewport_height,
    {
        let max = if self.total_lines > self.viewport_height {
            self.total_lines - self.viewport_height
        } else {
            0
        };
        let up = self.offset + n;
        self.offset = if up <= max { up } else { max };
    }

    /// Scroll down by `n` lines, clamped to zero.
    pub fn scroll_down(&mut self, n: usize)
        ensures
            final(self).offset == offset_after_down(*old(self), n as nat),
            final(self).total_lines == old(self).total_lines,
            final(self).viewport_height == old(self).viewport_height,
    {
        self.offset = if self.offset >= n { self.offset - n } else { 0 };
    }

    /// Scroll to bottom (newest messages).
    pub fn scroll_to_bottom(&mut self)
        ensures
            final(self).offset == 0,
            final(self).total_lines == old(self).total_lines,
            final(self).viewport_height == old(self).viewport_height,
    {
        self.offset = 0;
    }

    /// Update viewport size after resize.
    pub fn set_viewport(&mut self, height: usize)
        ensures
            final(self).viewport_height == if height >= 1 { height } else { 1 },
            final(self).total_lines == old(self).total_lines,
            final(self).offset == old(self).offset,
    {
        self.viewport_height = if height >= 1 { height } else { 1 };
    }
}

/// Scrolling up never goes past the largest offset, and from a position
/// within range it never leaves the range.
pub proof fn law_scroll_up_clamped(s: ScrollState, n: nat)
    ensures
        s.offset <= max_offset(s) ==> offset_after_up(s, n) <= max_offset(s),
        offset_after_up(s, n) <= s.offset + n,
{
}

/// Scrolling down by what was just scrolled up returns to the start, as
/// long as scrolling up was not clamped.
pub proof fn law_scroll_round_trip(s: ScrollState, n: nat)
    requires
        s.offset + n <= max_offset(s),
    ensures
        offset_after_down(ScrollState { offset: offset_after_up(s, n) as usize, ..s }, n) == s.offset,
{
}

/// Central app state.
pub struct App {
    pub messages: Vec<Message>,
    pub input: String,
    pub input_mode: InputMode,
    pub scroll: ScrollState,
    pub status_text: String,
    /// Accumulating streaming content (appended by stream deltas)
    pub streaming: String,
    /// Whether the agent is currently streaming a response
    pub is_streaming: bool,
}

/// Total number of lines of the messages' contents.
pub open spec fn message_lines(msgs: Seq<Message>) -> nat
    decreases msgs.len(),
{
    if msgs.len() == 0 {
        0
    } else {
        message_lines(msgs.drop_last()) + spec_lines(msgs.last().content@).len()
    }
}

/// The lines the message area needs: every message's lines, plus the
/// streaming text's lines while streaming.
pub open spec fn total_lines_spec(a: App) -> nat {
    message_lines(a.messages@) + if a.is_streaming { spec_lines(a.streaming@).len() } else { 0 }
}

/// The status line after an agent reply.
pub open spec fn reply_status(model: Seq<char>, tokens: nat, messages: nat) -> Seq<char> {
    "Model: "@ + model + " | Tokens: "@ + decimal(tokens) + " | Messages: "@ + decimal(messages)
}

/// A key that the chat UI reacts to.
#[derive(Clone, Copy, Debug, PartialEq, Eq, Structural)]
pub enum Key {
    Esc,
    Char(char),
    Backspace,
    Enter,
    PageUp,
    PageDown,
    Other,
}

/// What the input widget is to do after a key press.
#[derive(Clone, Copy, Debug, PartialEq, Eq, Structural)]
pub enum KeyAction {
    /// Leave the UI.
    Quit,
    /// Insert the character at the cursor.
    Insert(char),
    /// Delete the character before the cursor.
    DeleteBack,
    /// Nothing more to do.
    Handled,
}

/// How a chat line is styled.
#[derive(Clone, Copy, Debug, PartialEq, Eq, Structural)]
pub enum LineStyle {
    Plain,
    User,
    System,
}

/// One line of the chat panel.
#[derive(Debug)]
pub struct ChatLine {
    pub prefix: String,
    pub style: LineStyle,
    pub text: String,
}

/// The prefix of a role's lines.
pub open spec fn role_prefix(r: Role) -> Seq<char> {
    match r {
        Role::User => "> "@,
        Role::Assistant => ""@,
        Role::System => "# "@,
    }
}

/// The style of a role's lines.
pub open spec fn role_style(r: Role) -> LineStyle {
    match r {
        Role::User => LineStyle::User,
        Role::Assistant => LineStyle::Plain,
        Role::System => LineStyle::System,
    }
}

/// The view of a chat line: prefix, style and text.
pub open spec fn line_view(l: ChatLine) -> (Seq<char>, LineStyle, Seq<char>) {
    (l.prefix@, l.style, l.text@)
}

/// The chat lines of a message: each line of its content, with the
/// role's prefix and style.
pub open spec fn message_chat_lines(m: Message) -> Seq<(Seq<char>, LineStyle, Seq<char>)> {
    spec_lines(m.content@).map_values(
        |l: Seq<char>| (role_prefix(m.role), role_style(m.role), l),
    )
}

/// The chat lines of all messages, in order.
pub open spec fn all_chat_lines(msgs: Seq<Message>) -> Seq<(Seq<char>, LineStyle, Seq<char>)>
    decreases msgs.len(),
{
    if msgs.len() == 0 {
        Seq::empty()
    } else {
        all_chat_lines(msgs.drop_last()) + message_chat_lines(msgs.last())
    }
}

/// The chat panel's lines: the messages' lines, then the streaming text's
/// lines, unprefixed, while a non-empty stream is shown.
pub open spec fn panel_lines(a: App) -> Seq<(Seq<char>, LineStyle, Seq<char>)> {
    if a.is_streaming && a.streaming@.len() > 0 {
        all_chat_lines(a.messages@) + spec_lines(a.streaming@).map_values(
            |l: Seq<char>| (""@, LineStyle::Plain, l),
        )
    } else {
        all_chat_lines(a.messages@)
    }
}

fn prefix_of(r: Role) -> (p: String)
    ensures
        p@ == role_prefix(r),
{
    match r {
        Role::User => owned("> "),
        Role::Assistant => owned(""),
        Role::System => owned("# "),
    }
}

fn style_of(r: Role) -> (s: LineStyle)
    ensures
        s == role_style(r),
{
    match r {
        Role::User => LineStyle::User,
        Role::Assistant => LineStyle::Plain,
        Role::System => LineStyle::System,
    }
}

/// Appends the lines of `content` with the given prefix and style.
fn push_lines(out: &mut Vec<ChatLine>, content: &str, prefix: &str, style: LineStyle)
    ensures
        final(out)@.map_values(|l: ChatLine| line_view(l)) == old(out)@.map_values(
            |l: ChatLine| line_view(l),
        ) + spec_lines(content@).map_values(|l: Seq<char>| (prefix@, style, l)),
{
    let lines = split_lines(content);
    let ghost start = out@.map_values(|l: ChatLine| line_view(l));
    let ghost want = spec_lines(content@).map_values(|l: Seq<char>| (prefix@, style, l));
    let mut i: usize = 0;
    while i < lines.len()
        invariant
            i <= lines.len(),
            lines@.len() == spec_lines(content@).len(),
            forall|k: int| 0 <= k < lines@.len() ==> #[trigger] lines@[k]@ == spec_lines(content@)[k],
            want == spec_lines(content@).map_values(|l: Seq<char>| (prefix@, style, l)),
            out@.map_values(|l: ChatLine| line_view(l)) == start + want.take(i as int),
        decreases lines.len() - i,
    {
        let ghost before = out@;
        out.push(ChatLine { prefix: owned(prefix), style, text: lines[i].clone() });
        proof {
            assert(out@.map_values(|l: ChatLine| line_view(l)) =~= before.map_values(
                |l: ChatLine| line_view(l),
            ).push(want[i as int]));
            assert(want.take(i + 1) =~= want.take(i as int).push(want[i as int]));
            assert(start + want.take(i + 1) =~= (start + want.take(i as int)).push(want[i as int]));
        }
        i = i + 1;
    }
    assert(want.take(lines.len() as int) == want);
}

impl App {
    pub fn new() -> (a: Self)
        ensures
            a.messages@.len() == 0,
            a.input@ == Seq::<char>::empty(),
            a.input_mode == InputMode::Normal,
            a.scroll.total_lines == 0 && a.scroll.offset == 0 && a.scroll.viewport_height == 1,
            a.status_text@ == "Ready"@,
            a.streaming@ == Seq::<char>::empty(),
            !a.is_streaming,
    {
        App {
            messages: Vec::new(),
            input: String::new(),
            input_mode: InputMode::Normal,
            scroll: ScrollState::new(),
            status_text: owned("Ready"),
            streaming: String::new(),
            is_streaming: false,
        }
    }

    /// Add a user message and clear the input buffer. Blank input is
    /// refused and leaves everything as it was.
    pub fn submit_input(&mut self) -> (r: Option<String>)
        ensures
            spec_trim(old(self).input@).len() == 0 ==> r is None && *final(self) == *old(self),
            spec_trim(old(self).input@).len() > 0 ==> {
                &&& r matches Some(t) && t@ == spec_trim(old(self).input@)
                &&& final(self).messages@ == old(self).messages@.push(
                    Message { role: Role::User, content: r->0 },
                )
                &&& final(self).input@ == Seq::<char>::empty()
                &&& final(self).input_mode == InputMode::Processing
                &&& final(self).status_text@ == "Thinking..."@
                &&& final(self).streaming@ == Seq::<char>::empty()
                &&& final(self).is_streaming
                &&& final(self).scroll.offset == 0
                &&& final(self).scroll.total_lines == old(self).scroll.total_lines
                &&& final(self).scroll.viewport_height == old(self).scroll.viewport_height
            },
    {
        let text = trim(self.input.as_str());
        if text.as_str().is_empty() {
            return None;
        }
        self.messages.push(Message { role: Role::User, content: text.clone() });
        self.input = String::new();
        self.input_mode = InputMode::Processing;
        self.status_text = owned("Thinking...");
        self.streaming = String::new();
        self.is_streaming = true;
        self.scroll.scroll_to_bottom();
        Some(text)
    }

    /// Append a streaming content delta.
    pub fn append_stream(&mut self, delta: &str)
        ensures
            final(self).streaming@ == old(self).streaming@ + delta@,
            final(self).messages == old(self).messages,
            final(self).input == old(self).input,
            final(self).input_mode == old(self).input_mode,
            final(self).is_streaming == old(self).is_streaming,
    {
        push_str(&mut self.streaming, delta);
    }

    /// Finalize streaming: commit the streamed text (if any) as an
    /// assistant message and return to input.
    pub fn finish_stream(&mut self)
        ensures
            final(self).messages@ == if old(self).streaming@.len() > 0 {
                old(self).messages@.push(
                    Message { role: Role::Assistant, content: old(self).streaming },
                )
            } else {
                old(self).messages@
            },
            final(self).streaming@ == Seq::<char>::empty(),
            !final(self).is_streaming,
            final(self).input_mode == InputMode::Normal,
            final(self).status_text@ == "Ready"@,
            final(self).scroll.offset == 0,
            final(self).input == old(self).input,
    {
        if !self.streaming.as_str().is_empty() {
            let s = self.streaming.clone();
            self.messages.push(Message { role: Role::Assistant, content: s });
            self.streaming = String::new();
        }
        self.is_streaming = false;
        self.input_mode = InputMode::Normal;
        self.status_text = owned("Ready");
        self.scroll.scroll_to_bottom();
    }

    /// Add a system message (tool result, error, etc.).
    pub fn add_system_msg(&mut self, text: &str)
        ensures
            final(self).messages@.len() == old(self).messages@.len() + 1,
            final(self).messages@.drop_last() == old(self).messages@,
            final(self).messages@.last().role == Role::System,
            final(self).messages@.last().content@ == text@,
            final(self).scroll == old(self).scroll,
            final(self).status_text == old(self).status_text,
            final(self).input == old(self).input,
            final(self).input_mode == old(self).input_mode,
            final(self).streaming == old(self).streaming,
            final(self).is_streaming == old(self).is_streaming,
    {
        self.messages.push(Message { role: Role::System, content: owned(text) });
        assert(self.messages@.drop_last() =~= old(self).messages@);
    }

    /// Total visible lines in the message area (for scroll calculation).
    pub fn total_message_lines(&self) -> (n: usize)
        requires
            total_lines_spec(*self) <= usize::MAX,
        ensures
            n == total_lines_spec(*self),
    {
        let mut sum: usize = 0;
        let mut i: usize = 0;
        proof {
            self.lemma_message_lines_monotone(self.messages@);
        }
        while i < self.messages.len()
            invariant
                i <= self.messages.len(),
                sum == message_lines(self.messages@.take(i as int)),
                message_lines(self.messages@) + if self.is_streaming {
                    spec_lines(self.streaming@).len()
                } else {
                    0
                } <= usize::MAX,
                forall|j: int|
                    0 <= j <= self.messages@.len() ==> #[trigger] message_lines(
                        self.messages@.take(j),
                    ) <= message_lines(self.messages@),
            decreases self.messages.len() - i,
        {
            assert(self.messages@.take(i + 1).drop_last() == self.messages@.take(i as int));
            assert(self.messages@.take(i + 1).last() == self.messages@[i as int]);
            let c = crate::text::count_lines(self.messages[i].content.as_str());
            assert(message_lines(self.messages@.take(i + 1)) <= message_lines(self.messages@));
            sum = sum + c;
            i = i + 1;
        }
        assert(self.messages@.take(self.messages.len() as int) == self.messages@);
        if self.is_streaming {
            sum + crate::text::count_lines(self.streaming.as_str())
        } else {
            sum
        }
    }

    proof fn lemma_message_lines_monotone(&self, msgs: Seq<Message>)
        ensures
            forall|j: int| 0 <= j <= msgs.len() ==> #[trigger] message_lines(msgs.take(j)) <= message_lines(msgs),
        decreases msgs.len(),
    {
        if msgs.len() > 0 {
            self.lemma_message_lines_monotone(msgs.drop_last());
            assert forall|j: int| 0 <= j <= msgs.len() implies #[trigger] message_lines(msgs.take(j))
                <= message_lines(msgs) by {
                if j < msgs.len() {
                    assert(msgs.take(j) == msgs.drop_last().take(j));
                } else {
                    assert(msgs.take(j) == msgs);
                }
            }
        }
    }

    /// Clear all messages and reset state.
    pub fn clear(&mut self)
        ensures
            final(self).messages@.len() == 0,
            final(self).input@ == Seq::<char>::empty(),
            final(self).streaming@ == Seq::<char>::empty(),
            final(self).input_mode == InputMode::Normal,
            final(self).status_text@ == "Ready"@,
            final(self).scroll.total_lines == 0,
            final(self).scroll.offset == 0,
            final(self).scroll.viewport_height == 1,
            !final(self).is_streaming,
    {
        self.messages = Vec::new();
        self.input = String::new();
        self.streaming = String::new();
        self.input_mode = InputMode::Normal;
        self.status_text = owned("Ready");
        self.scroll = ScrollState::new();
        self.is_streaming = false;
    }

    /// Reacts to a key press. `widget_text` is what the input widget holds.
    /// Esc quits; while typing, characters and Backspace go to the widget
    /// and Enter takes its text as the input and starts processing; page
    /// keys scroll by five lines in any mode.
    pub fn handle_key(&mut self, key: Key, widget_text: &str) -> (a: KeyAction)
        requires
            key == Key::PageUp ==> old(self).scroll.offset + 5 <= usize::MAX,
        ensures
            a == match key {
                Key::Esc => KeyAction::Quit,
                Key::Char(c) => if old(self).input_mode == InputMode::Normal {
                    KeyAction::Insert(c)
                } else {
                    KeyAction::Handled
                },
                Key::Backspace => if old(self).input_mode == InputMode::Normal {
                    KeyAction::DeleteBack
                } else {
                    KeyAction::Handled
                },
                _ => KeyAction::Handled,
            },
            key == Key::Enter && old(self).input_mode == InputMode::Normal ==> final(self).input@
                == widget_text@ && final(self).input_mode == InputMode::Processing,
            !(key == Key::Enter && old(self).input_mode == InputMode::Normal) ==> final(self).input
                == old(self).input && final(self).input_mode == old(self).input_mode,
            final(self).scroll.offset == match key {
                Key::PageUp => offset_after_up(old(self).scroll, 5),
                Key::PageDown => offset_after_down(old(self).scroll, 5),
                _ => old(self).scroll.offset as nat,
            },
            final(self).messages == old(self).messages,
    {
        let normal = self.input_mode == InputMode::Normal;
        match key {
            Key::Esc => KeyAction::Quit,
            Key::Char(c) => if normal {
                KeyAction::Insert(c)
            } else {
                KeyAction::Handled
            },
            Key::Backspace => if normal {
                KeyAction::DeleteBack
            } else {
                KeyAction::Handled
            },
            Key::Enter => {
                if normal {
                    self.input = owned(widget_text);
                    self.input_mode = InputMode::Processing;
                }
                KeyAction::Handled
            },
            Key::PageUp => {
                self.scroll.scroll_up(5);
                KeyAction::Handled
            },
            Key::PageDown => {
                self.scroll.scroll_down(5);
                KeyAction::Handled
            },
            Key::Other => KeyAction::Handled,
        }
    }

    /// Records the outcome of an agent call: the reply as an assistant
    /// message and a status line with model, tokens and message count; or
    /// the error as a system message and status. Input is open again after.
    pub fn record_agent_result(&mut self, result: Result<String, Error>, model: &str, tokens: u64)
        ensures
            final(self).input_mode == InputMode::Normal,
            final(self).messages@.len() == old(self).messages@.len() + 1,
            final(self).messages@.drop_last() == old(self).messages@,
            match result {
                Ok(reply) => {
                    &&& final(self).messages@.last() == Message { role: Role::Assistant, content: reply }
                    &&& final(self).status_text@ == reply_status(
                        model@,
                        tokens as nat,
                        final(self).messages@.len(),
                    )
                },
                Err(e) => {
                    &&& final(self).messages@.last().role == Role::System
                    &&& final(self).messages@.last().content@ == "Error: "@ + error_text(e)
                    &&& final(self).status_text@ == "Error: "@ + error_text(e)
                },
            },
    {
        match result {
            Ok(reply) => {
                self.messages.push(Message { role: Role::Assistant, content: reply });
                self.input_mode = InputMode::Normal;
                let mut st = owned("Model: ");
                push_str(&mut st, model);
                push_str(&mut st, " | Tokens: ");
                push_decimal(&mut st, tokens);
                push_str(&mut st, " | Messages: ");
                push_decimal(&mut st, self.messages.len() as u64);
                self.status_text = st;
            },
            Err(e) => {
                let mut text = owned("Error: ");
                let m = e.message();
                push_str(&mut text, m.as_str());
                self.messages.push(Message { role: Role::System, content: text.clone() });
                self.input_mode = InputMode::Normal;
                self.status_text = text;
            },
        }
        assert(self.messages@.drop_last() =~= old(self).messages@);
    }

    /// The lines of the chat panel.
    pub fn chat_lines(&self) -> (r: Vec<ChatLine>)
        ensures
            r@.map_values(|l: ChatLine| line_view(l)) == panel_lines(*self),
    {
        let mut out: Vec<ChatLine> = Vec::new();
        let mut i: usize = 0;
        assert(out@.map_values(|l: ChatLine| line_view(l)) =~= Seq::<(Seq<char>, LineStyle, Seq<char>)>::empty());
        while i < self.messages.len()
            invariant
                i <= self.messages.len(),
                out@.map_values(|l: ChatLine| line_view(l)) == all_chat_lines(
                    self.messages@.take(i as int),
                ),
            decreases self.messages.len() - i,
        {
            let m = &self.messages[i];
            let p = prefix_of(m.role);
            push_lines(&mut out, m.content.as_str(), p.as_str(), style_of(m.role));
            assert(self.messages@.take(i + 1).drop_last() == self.messages@.take(i as int));
            assert(self.messages@.take(i + 1).last() == self.messages@[i as int]);
            i = i + 1;
        }
        assert(self.messages@.take(self.messages.len() as int) == self.messages@);
        if self.is_streaming && !self.streaming.as_str().is_empty() {
            push_lines(&mut out, self.streaming.as_str(), "", LineStyle::Plain);
        }
        out
    }

    /// The title of the input panel.
    pub fn input_title(&self) -> (t: &'static str)
        ensures
            t@ == if self.input_mode == InputMode::Normal {
                " Input (Enter to send) "@
            } else {
                " Processing... "@
            },
    {
        if self.input_mode == InputMode::Normal {
            " Input (Enter to send) "
        } else {
            " Processing... "
        }
    }

    /// The text of the input panel: the input, or an ellipsis while
    /// processing.
    pub fn input_display(&self) -> (t: String)
        ensures
            t@ == if self.input_mode == InputMode::Processing { "..."@ } else { self.input@ },
    {
        if self.input_mode == InputMode::Processing {
            owned("...")
        } else {
            self.input.clone()
        }
    }
}

/// TUI-specific config — optional, minimal.
#[derive(Debug, Clone, Copy)]
pub struct TuiConfig {
    pub show_status_bar: bool,
}

/// The default of a missing boolean setting: on.
pub fn default_true() -> (b: bool)
    ensures
        b,
{
    true
}

impl Default for TuiConfig {
    fn default() -> (c: Self)
        ensures
            c.show_status_bar,
    {
        TuiConfig { show_status_bar: true }
    }
}

} // verus!
