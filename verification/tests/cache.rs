use agentverse::cache::TurnCache;
use agentverse::memory::{Message, MessageRole};

fn texts(ms: &[Message]) -> Vec<String> {
    ms.iter().map(|m| m.as_text()).collect()
}

#[test]
fn working_buffer_rehydrates_and_records_turns() {
    let mut c = TurnCache::new(300);
    assert!(c.get("alice", 1).is_none());
    c.rehydrate("alice", 1, vec![Message::text(MessageRole::User, "earlier")]);
    assert_eq!(texts(&c.get("alice", 1).unwrap()), ["earlier"]);
    c.record_turn("alice", 1, Message::text(MessageRole::User, "q"), Message::text(MessageRole::Assistant, "a"));
    assert_eq!(texts(&c.get("alice", 1).unwrap()), ["earlier", "q", "a"]);
    assert!(c.get("bob", 1).is_none());
    assert!(c.get("alice", 2).is_none());
}

#[test]
fn recording_without_an_entry_starts_one() {
    let mut c = TurnCache::new(300);
    c.record_turn("alice", 7, Message::text(MessageRole::User, "q"), Message::text(MessageRole::Assistant, "a"));
    assert_eq!(texts(&c.get("alice", 7).unwrap()), ["q", "a"]);
}

#[test]
fn entries_are_dropped_by_session_and_by_user() {
    let mut c = TurnCache::new(300);
    c.rehydrate("alice", 1, vec![]);
    c.rehydrate("alice", 2, vec![]);
    c.rehydrate("bob", 1, vec![Message::text(MessageRole::User, "b")]);
    c.remove("alice", 1);
    assert!(c.get("alice", 1).is_none());
    assert!(c.get("alice", 2).is_some());
    c.remove_user("alice");
    assert!(c.get("alice", 2).is_none());
    assert_eq!(texts(&c.get("bob", 1).unwrap()), ["b"]);
}

#[test]
fn rehydrating_replaces_the_entry() {
    let mut c = TurnCache::new(300);
    c.rehydrate("alice", 1, vec![Message::text(MessageRole::User, "old")]);
    c.rehydrate("alice", 1, vec![Message::text(MessageRole::User, "new")]);
    assert_eq!(texts(&c.get("alice", 1).unwrap()), ["new"]);
}

#[test]
fn an_entry_with_no_time_to_live_expires() {
    let mut c = TurnCache::new(0);
    c.rehydrate("alice", 1, vec![]);
    let start = std::time::Instant::now();
    while start.elapsed() < std::time::Duration::from_millis(1100) {}
    assert!(c.get("alice", 1).is_none());
}

#[test]
fn an_expired_entry_answers_nothing() {
    let mut c = TurnCache::new(300);
    c.rehydrate("alice", 1, vec![Message::text(MessageRole::User, "kept")]);
    assert!(c.buffered_unless_expired("alice", 1, 300_000_000_001).is_none());
    assert_eq!(texts(&c.buffered_unless_expired("alice", 1, 300_000_000_000).unwrap()), ["kept"]);
    assert!(c.buffered_unless_expired("alice", 2, 0).is_none());
}

#[test]
fn refilling_drops_entries_idle_past_the_ttl() {
    let mut c = TurnCache::new(300);
    c.rehydrate("alice", 1, vec![Message::text(MessageRole::User, "a")]);
    c.rehydrate("bob", 1, vec![Message::text(MessageRole::User, "b")]);
    c.rehydrate("carol", 1, vec![Message::text(MessageRole::User, "c")]);
    assert_eq!(c.len(), 3);
    c.rehydrate_after("carol", 1, vec![Message::text(MessageRole::User, "c2")], &vec![300_000_000_001, 5, 0]);
    assert_eq!(c.len(), 2);
    assert!(c.get("alice", 1).is_none());
    assert_eq!(texts(&c.get("bob", 1).unwrap()), ["b"]);
    assert_eq!(texts(&c.get("carol", 1).unwrap()), ["c2"]);
}
