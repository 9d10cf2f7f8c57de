use motif::error::{debug_string_list, Error};
use motif::text::{
    contains, count_lines, decimal_string, ends_with, join, padded_hex, split_lines, starts_with, trim,
};
use motif::types::{Message, Parameters, ToolDefinition};

#[test]
fn error_messages() {
    assert_eq!(Error::ApiError { status: 404, body: "nope".into() }.message(), "LLM API error (404): nope");
    assert_eq!(Error::Http("timeout".into()).message(), "HTTP request failed: timeout");
    assert_eq!(Error::Json("eof".into()).message(), "JSON error: eof");
    assert_eq!(
        Error::ToolNotFound { name: "x".into(), available: vec!["a".into()] }.message(),
        "Tool 'x' not found. Available: [\"a\"]"
    );
    assert_eq!(Error::Custom("plain".into()).message(), "plain");
}

#[test]
fn error_clones() {
    assert!(matches!(Error::Http("t".into()).clone(), Error::Custom(m) if m == "Http: t"));
    assert!(matches!(Error::Json("j".into()).clone(), Error::Custom(m) if m == "Json: j"));
    assert!(matches!(
        Error::ApiError { status: 500, body: "b".into() }.clone(),
        Error::ApiError { status: 500, body } if body == "b"
    ));
    assert!(matches!(
        Error::ToolNotFound { name: "n".into(), available: vec!["a".into()] }.clone(),
        Error::ToolNotFound { name, available } if name == "n" && available == vec!["a".to_string()]
    ));
}

#[test]
fn debug_lists_escape() {
    assert_eq!(debug_string_list(&vec!["a\"b".into(), "c".into()]), "[\"a\\\"b\", \"c\"]");
    assert_eq!(debug_string_list(&vec![]), "[]");
}

#[test]
fn line_splitting_follows_str_lines() {
    assert_eq!(split_lines("a\r\nb\n\nc"), vec!["a", "b", "", "c"]);
    assert_eq!(split_lines("x\n"), vec!["x"]);
    assert!(split_lines("").is_empty());
    assert_eq!(count_lines("one\ntwo\n"), 2);
}

#[test]
fn text_helpers() {
    assert_eq!(trim("\t hi \u{3000}"), "hi");
    assert!(starts_with("hello", "he"));
    assert!(!starts_with("he", "hello"));
    assert!(ends_with("hello", "lo"));
    assert!(contains("hello", "ell"));
    assert!(!contains("hello", "elo"));
    assert_eq!(join(&vec!["a".into(), "b".into(), "c".into()], ", "), "a, b, c");
    assert_eq!(decimal_string(0), "0");
    assert_eq!(decimal_string(1234567890), "1234567890");
    assert_eq!(padded_hex(255, 4), "00ff");
    assert_eq!(padded_hex(0x12345, 2), "12345");
}

#[test]
fn message_constructors() {
    assert!(Message::system("s").is_system());
    assert!(!Message::user("u").is_system());
    let mut schema = serde_json::Map::new();
    schema.insert("type".to_string(), serde_json::Value::from("object"));
    let schema = serde_json::Value::Object(schema);
    let d = ToolDefinition::new("t", "desc", Parameters::new(schema.clone()));
    assert_eq!(d.tool_type, "function");
    assert_eq!(d.function.name, "t");
    assert_eq!(d.function.parameters.schema(), &schema);
}
