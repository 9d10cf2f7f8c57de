use motif::cli::{
    banner, choose_config, classify_line, config_from_entered_key, parse_command_input, status_line, CliAction,
    CommandInput, Config, ConfigChoice, DEFAULT_BASE_URL, DEFAULT_MODEL,
};
use motif::prompt::{runtime_context, runtime_context_at, Prompt, S1, S9, SECTION_SEP};

#[test]
fn config_sources_in_order() {
    let file = Config { api_key: "f".into(), base_url: "b".into(), model: "m".into() };
    match choose_config(Some(file), Some("e".into()), None, None) {
        ConfigChoice::Use(c) => assert_eq!(c.api_key, "f"),
        ConfigChoice::AskKey => panic!("file config expected"),
    }
    match choose_config(None, Some("e".into()), None, Some("mm".into())) {
        ConfigChoice::Use(c) => {
            assert_eq!(c.api_key, "e");
            assert_eq!(c.base_url, DEFAULT_BASE_URL);
            assert_eq!(c.model, "mm");
        }
        ConfigChoice::AskKey => panic!("env config expected"),
    }
    assert!(matches!(choose_config(None, None, Some("b".into()), None), ConfigChoice::AskKey));
}

#[test]
fn entered_keys_are_trimmed() {
    let c = config_from_entered_key("  sk-1\n").unwrap();
    assert_eq!(c.api_key, "sk-1");
    assert_eq!(c.base_url, "https://api.deepseek.com/v1");
    assert_eq!(c.model, DEFAULT_MODEL);
    assert!(config_from_entered_key(" \n").is_none());
}

#[test]
fn command_input_parsing() {
    assert!(matches!(parse_command_input("  hello  "), CommandInput::Text(t) if t == "hello"));
    assert!(matches!(parse_command_input("/load  abc "), CommandInput::Command { name, args } if name == "load" && args == "abc"));
    assert!(matches!(parse_command_input("/help"), CommandInput::Command { name, args } if name == "help" && args.is_empty()));
}

#[test]
fn line_actions() {
    assert!(matches!(classify_line("   "), CliAction::Skip));
    assert!(matches!(classify_line("/exit"), CliAction::Exit));
    assert!(matches!(classify_line(" /quit "), CliAction::Exit));
    assert!(matches!(classify_line("/clear"), CliAction::Clear));
    assert!(matches!(classify_line("/help"), CliAction::Help));
    assert!(matches!(classify_line("/status"), CliAction::Status));
    assert!(matches!(classify_line(" what? "), CliAction::Chat(t) if t == "what?"));
    assert!(matches!(classify_line("/load x"), CliAction::Chat(t) if t == "/load x"));
}

#[test]
fn status_and_banner_text() {
    assert_eq!(status_line(42, 3, "m"), "Tokens used: 42 | History: 3 messages | Model: m");
    assert_eq!(banner("deepseek-chat"), "Motif CLI · model: deepseek-chat · /help /clear /exit");
}

#[test]
fn layered_prompt() {
    let mut p = Prompt::new();
    let base = p.build(&vec![]);
    assert!(base.starts_with(S1));
    assert!(base.ends_with(S9));
    assert_eq!(base.matches(SECTION_SEP).count(), 8);
    p.freeze_tools("[{\"name\":\"t\"}]");
    let with_tools = p.build(&vec![]);
    assert_eq!(with_tools, format!("{}\n\n## Available Tools\n```json\n[{{\"name\":\"t\"}}]\n```\n", base));
    let again = p.build(&vec![]);
    assert_eq!(again, with_tools);
    let ext = p.build(&vec!["A".to_string(), "B".to_string()]);
    assert_eq!(ext, format!("{}\n\nA{}B", with_tools, SECTION_SEP));
    p.freeze_tools("[]");
    assert_eq!(p.build(&vec![]), base);
}

#[test]
fn runtime_context_line() {
    assert_eq!(
        runtime_context_at("2024-01-02 03:04", "m"),
        "[Runtime Context] Current time: 2024-01-02 03:04. Model: m.\n"
    );
    let live = runtime_context("m");
    assert!(live.starts_with("[Runtime Context] Current time: "));
    assert!(live.ends_with(". Model: m.\n"));
}
