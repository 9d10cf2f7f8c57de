use motif::tui::{App, InputMode, Role, ScrollState};

#[test]
fn test_submit_empty_input_returns_none() {
    let mut app = App::new();
    assert_eq!(app.submit_input(), None);
    assert_eq!(app.messages.len(), 0);
}

#[test]
fn test_submit_input_adds_message_and_clears() {
    let mut app = App::new();
    app.input = String::from("hello");
    let result = app.submit_input();
    assert_eq!(result, Some("hello".into()));
    assert_eq!(app.messages.len(), 1);
    assert_eq!(app.messages[0].role, Role::User);
    assert!(app.input.is_empty());
    assert_eq!(app.input_mode, InputMode::Processing);
}

#[test]
fn test_stream_append_and_finish() {
    let mut app = App::new();
    app.input = String::from("test");
    app.submit_input();

    app.append_stream("Hello");
    app.append_stream(" World");
    assert_eq!(app.streaming, "Hello World");

    app.finish_stream();
    assert!(app.streaming.is_empty());
    assert_eq!(app.messages.len(), 2);
    assert_eq!(app.messages[1].role, Role::Assistant);
    assert_eq!(app.messages[1].content, "Hello World");
    assert_eq!(app.input_mode, InputMode::Normal);
}

#[test]
fn test_scroll_up_down() {
    let mut s = ScrollState::new();
    s.total_lines = 50;
    s.viewport_height = 10;
    s.scroll_up(5);
    assert_eq!(s.offset, 5);
    s.scroll_down(3);
    assert_eq!(s.offset, 2);
    s.scroll_down(10);
    assert_eq!(s.offset, 0);
}

#[test]
fn test_clear_resets_all() {
    let mut app = App::new();
    app.input = String::from("test");
    app.submit_input();
    app.finish_stream();
    app.clear();
    assert!(app.messages.is_empty());
    assert!(app.input.is_empty());
    assert_eq!(app.input_mode, InputMode::Normal);
}

#[test]
fn test_app_lifecycle() {
    let mut app = App::new();
    assert!(app.messages.is_empty());
    assert_eq!(app.input_mode, InputMode::Normal);

    app.input = String::from("hello agent");
    let prompt = app.submit_input();
    assert_eq!(prompt, Some("hello agent".into()));
    assert_eq!(app.input_mode, InputMode::Processing);

    app.append_stream("Hello");
    app.append_stream(" there");
    assert_eq!(app.streaming, "Hello there");

    app.finish_stream();
    assert_eq!(app.messages.len(), 2);
    assert_eq!(app.messages[1].role, Role::Assistant);
    assert_eq!(app.input_mode, InputMode::Normal);
}

#[test]
fn test_scroll_clamping() {
    let mut s = ScrollState::new();
    s.total_lines = 100;
    s.viewport_height = 20;

    s.scroll_up(1000);
    assert_eq!(s.offset, 80);

    s.scroll_to_bottom();
    assert_eq!(s.offset, 0);

    s.scroll_down(100);
    assert_eq!(s.offset, 0);
}
