use motif::history::{BoundedHistory, History, InfiniteHistory};
use motif::types::{Message, TimedMessage};

#[test]
fn history_test_infinite_history_add_and_retrieve() {
    let mut h = InfiniteHistory::new();
    h.add(TimedMessage::new(Message::user("hello")));
    h.add(TimedMessage::new(Message::system("sys")));
    assert_eq!(h.get_all().len(), 2);
}

#[test]
fn history_test_infinite_history_clear() {
    let mut h = InfiniteHistory::new();
    h.add(TimedMessage::new(Message::user("hello")));
    h.clear();
    assert!(h.get_all().is_empty());
}

#[test]
fn history_test_multiple_adds() {
    let mut h = InfiniteHistory::new();
    h.add(TimedMessage::new(Message::user("a")));
    h.add(TimedMessage::new(Message::user("b")));
    assert_eq!(h.get_all().len(), 2);
}

#[test]
fn history_test_bounded_history_enforces_capacity() {
    let mut h = BoundedHistory::new(3);
    h.add(TimedMessage::new(Message::system("sys")));
    h.add(TimedMessage::new(Message::user("a")));
    h.add(TimedMessage::new(Message::user("b")));
    h.add(TimedMessage::new(Message::user("c")));
    assert_eq!(h.get_all().len(), 3);
    assert!(matches!(h.get_all()[0].message, Message::System(_)));
}

#[test]
fn history_test_bounded_history_pins_system() {
    let mut h = BoundedHistory::new(2);
    h.add(TimedMessage::new(Message::system("sys")));
    h.add(TimedMessage::new(Message::user("u1")));
    h.add(TimedMessage::new(Message::user("u2")));
    h.add(TimedMessage::new(Message::user("u3")));
    assert_eq!(h.get_all().len(), 2);
    assert!(matches!(h.get_all()[0].message, Message::System(_)));
    if let Message::User(ref um) = h.get_all()[1].message {
        assert_eq!(um.content, "u3");
    } else {
        panic!("expected user message");
    }
}
