use hummingbird::history::{Message, MessageHistory};
use hummingbird::repl::{history_entry, history_header, history_listing, keep_assistant_replies, read_input, ReplInput};

#[test]
fn reads_what_a_line_asks_for() {
    for q in ["/quit", "/exit", "exit", "  quit  "] {
        assert!(matches!(read_input(q), ReplInput::Quit));
    }
    assert!(matches!(read_input("/history\n"), ReplInput::History));
    assert!(matches!(read_input("/undo"), ReplInput::Undo));
    assert!(matches!(read_input("   \n"), ReplInput::Empty));
    match read_input("  fix the bug \n") {
        ReplInput::Prompt(p) => assert_eq!(p, "fix the bug"),
        other => panic!("unexpected {:?}", other),
    }
}

#[test]
fn history_lines() {
    assert_eq!(history_header(2), "--- Conversation History (2 messages) ---");
    let m = Message::new("user", "hello");
    assert_eq!(history_entry(0, &m), "[0] user: hello...");
    let long = "x".repeat(100);
    let m = Message::new("assistant", &long);
    assert_eq!(history_entry(7, &m), format!("[7] assistant: {}...", "x".repeat(80)));
}

#[test]
fn listing_has_header_and_one_line_per_message() {
    let mut h = MessageHistory::new();
    h.push_user("a");
    h.push_assistant("b");
    let l = history_listing(&h);
    assert_eq!(l, vec![
        "--- Conversation History (2 messages) ---".to_string(),
        "[0] user: a...".to_string(),
        "[1] assistant: b...".to_string(),
    ]);
}

#[test]
fn keeps_only_assistant_replies() {
    let mut kept = MessageHistory::new();
    kept.push_assistant("earlier");
    let mut run = MessageHistory::new();
    run.push_user("task");
    run.push_assistant("call");
    run.push_tool_result("read_file", "data");
    run.push_assistant("answer");
    keep_assistant_replies(&mut kept, &run);
    let contents: Vec<&str> = kept.as_messages().iter().map(|m| m.content.as_str()).collect();
    assert_eq!(contents, vec!["earlier", "call", "answer"]);
    assert!(kept.as_messages().iter().all(|m| m.role == "assistant"));
}

#[test]
fn history_starts_empty() {
    let h = MessageHistory::new();
    assert!(h.is_empty());
    assert_eq!(h.len(), 0);
}
