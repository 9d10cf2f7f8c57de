use motif::history::{
    is_message_line, replace_session_entry, session_file_name, session_id_from_nanos, BoundedHistory, History,
    HistorySink, IndexEntry, PersistentHistory,
};
use motif::types::{Message, TimedMessage};

#[test]
fn bounded_history_never_evicts_system() {
    let mut h = BoundedHistory::new(2);
    h.add(TimedMessage::new(Message::system("s1")));
    h.add(TimedMessage::new(Message::system("s2")));
    h.add(TimedMessage::new(Message::system("s3")));
    assert_eq!(h.get_all().len(), 3);
    let mut mixed = BoundedHistory::new(2);
    mixed.add(TimedMessage::new(Message::system("s1")));
    mixed.add(TimedMessage::new(Message::user("u1")));
    mixed.add(TimedMessage::new(Message::system("s2")));
    mixed.add(TimedMessage::new(Message::system("s3")));
    let all = mixed.get_all();
    assert_eq!(all.len(), 3);
    assert!(all.iter().all(|m| m.message.is_system()));
}

#[test]
fn bounded_history_keeps_newest_others() {
    let mut h = BoundedHistory::new(3);
    for name in ["u1", "u2", "u3", "u4", "u5"] {
        h.add(TimedMessage::new(Message::user(name)));
    }
    let names: Vec<String> = h
        .get_all()
        .iter()
        .map(|m| match &m.message {
            Message::User(u) => u.content.clone(),
            _ => String::new(),
        })
        .collect();
    assert_eq!(names, vec!["u3", "u4", "u5"]);
    let mut zero = BoundedHistory::new(0);
    zero.add(TimedMessage::new(Message::user("a")));
    zero.add(TimedMessage::new(Message::user("b")));
    assert_eq!(zero.get_all().len(), 1);
}

#[test]
fn session_ids_and_files() {
    assert_eq!(session_id_from_nanos(0x1234), "000000000000");
    assert_eq!(session_id_from_nanos(0xabcdef0123456789), "abcdef012345");
    assert_eq!(session_id_from_nanos(0x1_0000_0000_0000_0000), "100000000000");
    assert_eq!(session_file_name("s1"), "s1.jsonl");
}

#[test]
fn message_lines_of_a_session_file() {
    assert!(!is_message_line("   "));
    assert!(!is_message_line("{\"_meta\":true,\"created\":\"x\"}"));
    assert!(is_message_line("{\"message\":{\"role\":\"user\"}}"));
}

#[test]
fn index_entries_are_replaced() {
    let entry = |id: Option<&str>, n: i64| IndexEntry { id: id.map(|s| s.to_string()), record: serde_json::Value::from(n) };
    let idx = vec![entry(Some("a"), 1), entry(Some("b"), 2), entry(None, 3), entry(Some("a"), 4)];
    let out = replace_session_entry(idx, "a", entry(Some("a"), 5));
    let records: Vec<serde_json::Value> = out.into_iter().map(|e| e.record).collect();
    assert_eq!(records, vec![serde_json::Value::from(2), serde_json::Value::from(3), serde_json::Value::from(5)]);
}

struct Recorder {
    lines: Vec<String>,
    restarts: usize,
}

impl HistorySink for Recorder {
    fn record(&mut self, message: &TimedMessage) {
        if let Message::User(u) = &message.message {
            self.lines.push(u.content.clone());
        }
    }
    fn restart(&mut self) {
        self.restarts += 1;
    }
}

#[test]
fn persistent_history_records_and_restarts() {
    let mut h = PersistentHistory::resume(vec![TimedMessage::new(Message::user("old"))], Recorder { lines: vec![], restarts: 0 });
    h.add(TimedMessage::new(Message::user("new")));
    assert_eq!(h.get_all().len(), 2);
    assert_eq!(h.sink.lines, vec!["new"]);
    h.clear();
    assert!(h.get_all().is_empty());
    assert_eq!(h.sink.restarts, 1);
}
