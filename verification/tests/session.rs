use hummingbird::session::{sessions_dir, unique_id, Session, SessionIds, SessionMeta};

fn meta(id: &str, created_at: u64) -> SessionMeta {
    SessionMeta { id: id.into(), created_at, summary: String::new(), message_count: 0 }
}

#[test]
fn ids_are_time_then_sequence_in_hex() {
    assert_eq!(unique_id(255, 1), "00000000000000ff0001");
    assert_eq!(unique_id(0x1234, 0x12345), "000000000000123412345");
}

#[test]
fn new_sessions_are_empty() {
    let s = Session::new("Test session", 0);
    assert_eq!(s.summary, "Test session");
    assert_eq!(s.created_at, s.updated_at);
    assert!(s.history.is_empty());
    assert_eq!(s.id.len(), 20);
    let m = s.meta();
    assert_eq!(m.id, s.id);
    assert_eq!(m.message_count, 0);
}

#[test]
fn listing_is_newest_first() {
    let ordered = Session::order_listing(vec![meta("a", 1), meta("b", 3), meta("c", 2), meta("d", 3)]);
    let ids: Vec<&str> = ordered.iter().map(|m| m.id.as_str()).collect();
    assert_eq!(ids, vec!["b", "d", "c", "a"]);
}

#[test]
fn pruning_cutoff() {
    assert_eq!(Session::prune_cutoff(100, 30), 70);
    assert_eq!(Session::prune_cutoff(10, 30), 0);
    assert!(Session::is_prunable(69, 70));
    assert!(!Session::is_prunable(70, 70));
}

#[test]
fn session_files() {
    assert_eq!(Session::file_name("abc"), "abc.json");
    assert_eq!(sessions_dir(), ".hummingbird/sessions");
}

#[test]
fn ids_differ_when_time_or_sequence_differ() {
    assert_ne!(unique_id(1, 2), unique_id(2, 1));
    assert_ne!(unique_id(0x10, 0), unique_id(0x1, 0));
    assert_ne!(unique_id(5, 0xFFFF), unique_id(5, 0x10000));
    assert_eq!(unique_id(u64::MAX, 0), "ffffffffffffffff0000");
}

#[test]
fn a_counter_numbers_its_sessions() {
    let mut ids = SessionIds::new();
    let a = ids.create("first");
    let b = ids.create("second");
    assert_ne!(a.id, b.id);
    assert!(a.id.ends_with("0000"));
    assert!(b.id.ends_with("0001"));
    assert_eq!(ids.next, 2);
    assert_eq!(b.summary, "second");
    let mut last = SessionIds { next: u64::MAX };
    let s = last.create("wraps");
    assert!(s.id.ends_with("ffffffffffffffff"));
    assert_eq!(last.next, 0);
}
