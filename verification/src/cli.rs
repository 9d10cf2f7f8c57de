//! The command-line front end's decisions: which configuration to use,
//! how an input line is read (slash command or chat text), and the status
//! line.
use vstd::prelude::*;

use crate::text::{decimal, has_prefix, owned, push_decimal, push_str, spec_trim, to_chars, from_chars, trim};

verus! {

/// The provider endpoint used when none is configured.
pub const DEFAULT_BASE_URL: &'static str = "https://api.deepseek.com/v1";

/// The model used when none is configured.
pub const DEFAULT_MODEL: &'static str = "deepseek-chat";

/// The endpoint used when none is configured.
pub fn default_base_url() -> (s: String)
    ensures
        s@ == DEFAULT_BASE_URL@,
{
    owned(DEFAULT_BASE_URL)
}

/// The model used when none is configured.
pub fn default_model() -> (s: String)
    ensures
        s@ == DEFAULT_MODEL@,
{
    owned(DEFAULT_MODEL)
}

/// The front end's settings.
#[derive(Debug)]
pub struct Config {
    pub api_key: String,
    pub base_url: String,
    pub model: String,
}

/// Where the settings come from.
#[derive(Debug)]
pub enum ConfigChoice {
    /// Settings found in the configuration file or the environment.
    Use(Config),
    /// Nothing found: the user is to be asked for an API key.
    AskKey,
}

/// The settings to use: the configuration file's when it was read, else
/// the environment's when it names an API key (with default endpoint and
/// model where it names none), else none.
pub fn choose_config(
    from_file: Option<Config>,
    env_key: Option<String>,
    env_base_url: Option<String>,
    env_model: Option<String>,
) -> (c: ConfigChoice)
    ensures
        from_file is Some ==> c == ConfigChoice::Use(from_file->0),
        from_file is None && env_key is Some ==> (c matches ConfigChoice::Use(cfg) && cfg.api_key
            == env_key->0 && cfg.base_url@ == (match env_base_url {
            Some(b) => b@,
            None => DEFAULT_BASE_URL@,
        }) && cfg.model@ == (match env_model {
            Some(m) => m@,
            None => DEFAULT_MODEL@,
        })),
        from_file is None && env_key is None ==> c is AskKey,
{
    match from_file {
        Some(cfg) => ConfigChoice::Use(cfg),
        None => match env_key {
            Some(key) => {
                let base_url = match env_base_url {
                    Some(b) => b,
                    None => default_base_url(),
                };
                let model = match env_model {
                    Some(m) => m,
                    None => default_model(),
                };
                ConfigChoice::Use(Config { api_key: key, base_url, model })
            },
            None => ConfigChoice::AskKey,
        },
    }
}

/// The settings for a key the user typed: none for a blank key, else the
/// trimmed key with the default endpoint and model.
pub fn config_from_entered_key(entered: &str) -> (c: Option<Config>)
    ensures
        spec_trim(entered@).len() == 0 <==> c is None,
        c matches Some(cfg) ==> (cfg.api_key@ == spec_trim(entered@) && cfg.base_url@
            == DEFAULT_BASE_URL@ && cfg.model@ == DEFAULT_MODEL@),
{
    let key = trim(entered);
    if key.as_str().is_empty() {
        None
    } else {
        Some(Config { api_key: key, base_url: default_base_url(), model: default_model() })
    }
}

/// What a command run asks the front end to do next.
#[derive(Debug)]
pub enum Outcome {
    Continue,
    Exit,
    PassToAgent(String),
}

/// The command that loads a saved session.
#[derive(Debug, Clone, Copy)]
pub struct Load;

/// An input line, read as chat text or as a slash command.
#[derive(Debug)]
pub enum CommandInput {
    /// Text for the agent (trimmed).
    Text(String),
    /// `/name args`: the name, and the trimmed rest after the first space.
    Command { name: String, args: String },
}

/// Index of the first space in `s`, if any.
pub open spec fn first_space(s: Seq<char>) -> Option<int>
    decreases s.len(),
{
    if s.len() == 0 {
        None
    } else if s[0] == ' ' {
        Some(0)
    } else {
        match first_space(s.drop_first()) {
            Some(i) => Some(i + 1),
            None => None,
        }
    }
}

/// How a line is read: trimmed; without a leading `/` it is chat text;
/// with one, the rest splits at its first space into a command name and
/// its (trimmed) arguments.
pub open spec fn spec_command_input(line: Seq<char>) -> (bool, Seq<char>, Seq<char>) {
    let t = spec_trim(line);
    if !has_prefix(t, "/"@) {
        (false, t, Seq::<char>::empty())
    } else {
        let rest = t.drop_first();
        match first_space(rest) {
            Some(i) => (true, rest.take(i), spec_trim(rest.skip(i + 1))),
            None => (true, rest, Seq::<char>::empty()),
        }
    }
}

/// The view of a parsed input: is it a command, its name or text, and its
/// arguments.
pub open spec fn input_view(c: CommandInput) -> (bool, Seq<char>, Seq<char>) {
    match c {
        CommandInput::Text(t) => (false, t@, Seq::<char>::empty()),
        CommandInput::Command { name, args } => (true, name@, args@),
    }
}

proof fn lemma_first_space(s: Seq<char>, i: int)
    requires
        0 <= i <= s.len(),
        forall|k: int| 0 <= k < i ==> s[k] != ' ',
    ensures
        i < s.len() && s[i] == ' ' ==> first_space(s) == Some(i),
        i == s.len() ==> first_space(s) is None,
    decreases i,
{
    if i > 0 {
        lemma_first_space(s.drop_first(), i - 1);
    } else if s.len() > 0 {
    }
}

/// Reads an input line as chat text or as a slash command.
pub fn parse_command_input(line: &str) -> (c: CommandInput)
    ensures
        input_view(c) == spec_command_input(line@),
{
    let t = trim(line);
    let cs = to_chars(t.as_str());
    if cs.len() == 0 || cs[0] != '/' {
        proof {
            reveal_strlit("/");
            assert("/"@ == seq!['/']);
            if cs@.len() > 0 {
                assert(t@.take(1)[0] != "/"@[0]);
                assert(!has_prefix(t@, "/"@));
            } else {
                assert(!has_prefix(t@, "/"@));
            }
        }
        return CommandInput::Text(t);
    }
    assert(t@.take(1) =~= "/"@) by {
        reveal_strlit("/");
    }
    let ghost rest = t@.drop_first();
    let mut i: usize = 1;
    while i < cs.len() && cs[i] != ' '
        invariant
            1 <= i <= cs.len(),
            cs@ == t@,
            rest == t@.drop_first(),
            forall|k: int| 0 <= k < i - 1 ==> rest[k] != ' ',
        decreases cs.len() - i,
    {
        i = i + 1;
    }
    proof {
        lemma_first_space(rest, i - 1);
    }
    let name = from_chars(&cs.as_slice()[1..i]);
    assert(name@ == rest.take(i - 1));
    if i < cs.len() {
        let after = from_chars(&cs.as_slice()[i + 1..cs.len()]);
        assert(after@ == rest.skip(i as int));
        let args = trim(after.as_str());
        CommandInput::Command { name, args }
    } else {
        assert(rest.take(i - 1) == rest);
        CommandInput::Command { name, args: String::new() }
    }
}

/// What a line typed at the front end's prompt asks for.
#[derive(Debug)]
pub enum CliAction {
    /// A blank line: ask again.
    Skip,
    /// `/exit` or `/quit`.
    Exit,
    /// `/clear`: start a new session.
    Clear,
    /// `/help`: list the commands.
    Help,
    /// `/status`: show token and history counts.
    Status,
    /// Anything else: the trimmed line goes to the agent.
    Chat(String),
}

/// The view of a front-end action: its kind (0 skip, 1 exit, 2 clear,
/// 3 help, 4 status, 5 chat) and the chat text.
pub open spec fn cli_action_view(a: CliAction) -> (int, Seq<char>) {
    match a {
        CliAction::Skip => (0, Seq::<char>::empty()),
        CliAction::Exit => (1, Seq::<char>::empty()),
        CliAction::Clear => (2, Seq::<char>::empty()),
        CliAction::Help => (3, Seq::<char>::empty()),
        CliAction::Status => (4, Seq::<char>::empty()),
        CliAction::Chat(t) => (5, t@),
    }
}

/// How the front end reads a typed line.
pub open spec fn spec_cli_action(line: Seq<char>) -> (int, Seq<char>) {
    let t = spec_trim(line);
    if t.len() == 0 {
        (0, Seq::<char>::empty())
    } else if t == "/exit"@ || t == "/quit"@ {
        (1, Seq::<char>::empty())
    } else if t == "/clear"@ {
        (2, Seq::<char>::empty())
    } else if t == "/help"@ {
        (3, Seq::<char>::empty())
    } else if t == "/status"@ {
        (4, Seq::<char>::empty())
    } else {
        (5, t)
    }
}

/// Reads a line typed at the front end's prompt.
pub fn classify_line(line: &str) -> (a: CliAction)
    ensures
        cli_action_view(a) == spec_cli_action(line@),
{
    let t = trim(line);
    if t.as_str().is_empty() {
        CliAction::Skip
    } else if t == owned("/exit") || t == owned("/quit") {
        CliAction::Exit
    } else if t == owned("/clear") {
        CliAction::Clear
    } else if t == owned("/help") {
        CliAction::Help
    } else if t == owned("/status") {
        CliAction::Status
    } else {
        CliAction::Chat(t)
    }
}

/// The `/status` line.
pub open spec fn status_text(tokens: nat, history_len: nat, model: Seq<char>) -> Seq<char> {
    "Tokens used: "@ + decimal(tokens) + " | History: "@ + decimal(history_len)
        + " messages | Model: "@ + model
}

/// The `/status` line for the given counts and model.
pub fn status_line(tokens: u64, history_len: usize, model: &str) -> (r: String)
    ensures
        r@ == status_text(tokens as nat, history_len as nat, model@),
{
    let mut r = owned("Tokens used: ");
    push_decimal(&mut r, tokens);
    push_str(&mut r, " | History: ");
    push_decimal(&mut r, history_len as u64);
    push_str(&mut r, " messages | Model: ");
    push_str(&mut r, model);
    r
}

/// The banner printed when the front end starts.
pub fn banner(model: &str) -> (r: String)
    ensures
        r@ == "Motif CLI · model: "@ + model@ + " · /help /clear /exit"@,
{
    let mut r = owned("Motif CLI · model: ");
    push_str(&mut r, model);
    push_str(&mut r, " · /help /clear /exit");
    r
}

} // verus!
