use motif::error::Error;
use motif::tui::{App, InputMode, Key, KeyAction, LineStyle, Message, Role, ScrollState, TuiConfig};

#[test]
fn blank_input_is_refused() {
    let mut app = App::new();
    app.input = "   ".into();
    assert_eq!(app.submit_input(), None);
    assert_eq!(app.input, "   ");
    assert_eq!(app.input_mode, InputMode::Normal);
}

#[test]
fn submitted_input_is_trimmed() {
    let mut app = App::new();
    app.input = "  hi  ".into();
    assert_eq!(app.submit_input(), Some("hi".into()));
    assert_eq!(app.messages[0].content, "hi");
    assert_eq!(app.status_text, "Thinking...");
    assert!(app.is_streaming);
}

#[test]
fn finishing_an_empty_stream_adds_nothing() {
    let mut app = App::new();
    app.finish_stream();
    assert!(app.messages.is_empty());
    assert_eq!(app.status_text, "Ready");
}

#[test]
fn keys_drive_the_input() {
    let mut app = App::new();
    assert_eq!(app.handle_key(Key::Char('a'), ""), KeyAction::Insert('a'));
    assert_eq!(app.handle_key(Key::Backspace, ""), KeyAction::DeleteBack);
    assert_eq!(app.handle_key(Key::Enter, "typed"), KeyAction::Handled);
    assert_eq!(app.input, "typed");
    assert_eq!(app.input_mode, InputMode::Processing);
    assert_eq!(app.handle_key(Key::Char('b'), ""), KeyAction::Handled);
    assert_eq!(app.handle_key(Key::Esc, ""), KeyAction::Quit);
    app.scroll.total_lines = 30;
    app.scroll.viewport_height = 10;
    app.handle_key(Key::PageUp, "");
    assert_eq!(app.scroll.offset, 5);
    app.handle_key(Key::PageDown, "");
    assert_eq!(app.scroll.offset, 0);
}

#[test]
fn agent_results_are_recorded() {
    let mut app = App::new();
    app.input_mode = InputMode::Processing;
    app.record_agent_result(Ok("reply".into()), "m", 12);
    assert_eq!(app.messages[0].role, Role::Assistant);
    assert_eq!(app.status_text, "Model: m | Tokens: 12 | Messages: 1");
    assert_eq!(app.input_mode, InputMode::Normal);
    app.record_agent_result(Err(Error::Custom("boom".into())), "m", 12);
    assert_eq!(app.messages[1].role, Role::System);
    assert_eq!(app.messages[1].content, "Error: boom");
    assert_eq!(app.status_text, "Error: boom");
}

#[test]
fn chat_lines_and_counts() {
    let mut app = App::new();
    app.messages.push(Message { role: Role::User, content: "a\nb".into() });
    app.messages.push(Message { role: Role::System, content: "s".into() });
    app.is_streaming = true;
    app.streaming = "x\ny\n".into();
    assert_eq!(app.total_message_lines(), 5);
    let lines = app.chat_lines();
    let view: Vec<(String, LineStyle, String)> = lines.into_iter().map(|l| (l.prefix, l.style, l.text)).collect();
    assert_eq!(
        view,
        vec![
            ("> ".to_string(), LineStyle::User, "a".to_string()),
            ("> ".to_string(), LineStyle::User, "b".to_string()),
            ("# ".to_string(), LineStyle::System, "s".to_string()),
            ("".to_string(), LineStyle::Plain, "x".to_string()),
            ("".to_string(), LineStyle::Plain, "y".to_string()),
        ]
    );
    assert_eq!(app.input_title(), " Input (Enter to send) ");
    app.input = "draft".into();
    assert_eq!(app.input_display(), "draft");
    app.input_mode = InputMode::Processing;
    assert_eq!(app.input_title(), " Processing... ");
    assert_eq!(app.input_display(), "...");
}

#[test]
fn scroll_viewport_and_round_trip() {
    let mut s = ScrollState::new();
    s.set_viewport(0);
    assert_eq!(s.viewport_height, 1);
    s.total_lines = 40;
    s.set_viewport(10);
    s.scroll_up(7);
    s.scroll_down(7);
    assert_eq!(s.offset, 0);
    s.scroll_up(100);
    assert_eq!(s.offset, 30);
    assert!(TuiConfig::default().show_status_bar);
}
