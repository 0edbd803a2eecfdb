use hummingbird::error::HummingbirdError;
use hummingbird::json::{parse_json, JsonNumber, JsonValue};
use hummingbird::context::ContextGatherer;
use hummingbird::tools::{SearchFiles, SearchedFile};
use hummingbird::providers::{
    anthropic_stream_event, anthropic_text, first_choice_delta, first_choice_text, missing_key_error, ollama_stream_data, ollama_token, ollama_chat_url, ollama_default_url,
    openai_chat_url, openai_stream_line, status_error, ContentBlock, OpenAiLine, StreamEvent,
};

#[test]
fn ollama_local_url() {
    assert!(ollama_default_url().contains("11434"));
    assert_eq!(ollama_chat_url(ollama_default_url()), "http://localhost:11434/api/chat");
    assert_eq!(openai_chat_url("https://api.openai.com/v1"), "https://api.openai.com/v1/chat/completions");
}

#[test]
fn provider_errors() {
    match status_error("OpenAI", 429, "rate limited") {
        HummingbirdError::Inference(m) => assert_eq!(m, "OpenAI 429: rate limited"),
        other => panic!("unexpected {:?}", other),
    }
    match missing_key_error("OPENAI_API_KEY") {
        HummingbirdError::Config(m) => assert_eq!(m, "OPENAI_API_KEY not set"),
        other => panic!("unexpected {:?}", other),
    }
}

#[test]
fn answer_texts() {
    let blocks = vec![
        ContentBlock { kind: "text".into(), text: Some("Hello".into()) },
        ContentBlock { kind: "tool_use".into(), text: Some("ignored".into()) },
        ContentBlock { kind: "text".into(), text: Some(", world".into()) },
    ];
    assert_eq!(anthropic_text(&blocks), "Hello, world");
    assert_eq!(first_choice_text(vec![Some("first".into()), Some("second".into())]), "first");
    assert_eq!(first_choice_text(vec![None]), "");
    assert_eq!(first_choice_text(vec![]), "");
}

#[test]
fn anthropic_stream_lines() {
    match anthropic_stream_event(r#"data: {"type":"content_block_delta","delta":{"text":"Hi"}}"#) {
        StreamEvent::Token { text, done } => {
            assert_eq!(text, "Hi");
            assert!(!done);
        }
        other => panic!("unexpected {:?}", other),
    }
    assert!(matches!(anthropic_stream_event(r#"data: {"type":"message_stop"}"#), StreamEvent::Stop));
    assert!(matches!(anthropic_stream_event("event: ping"), StreamEvent::Ignore));
    assert!(matches!(anthropic_stream_event("data: {broken"), StreamEvent::Ignore));
}

#[test]
fn openai_stream_lines() {
    assert!(matches!(openai_stream_line("data: [DONE]"), OpenAiLine::Done));
    assert!(matches!(openai_stream_line(""), OpenAiLine::Blank));
    match openai_stream_line("data: {\"x\":1}") {
        OpenAiLine::Data(d) => assert_eq!(d, "{\"x\":1}"),
        other => panic!("unexpected {:?}", other),
    }
}

#[test]
fn json_values() {
    let v = parse_json(r#"{"b": [1, -2, 1.5], "a": "s", "n": null, "t": true}"#).unwrap();
    assert_eq!(v.get("a").and_then(|x| x.as_str()).map(|s| s.as_str()), Some("s"));
    assert_eq!(v.get("n"), Some(&JsonValue::Null));
    assert_eq!(v.get("t"), Some(&JsonValue::Bool(true)));
    match v.get("b") {
        Some(JsonValue::Array(items)) => {
            assert_eq!(items[0], JsonValue::Number(JsonNumber::PosInt(1)));
            assert_eq!(items[1], JsonValue::Number(JsonNumber::NegInt(-2)));
            assert_eq!(items[2], JsonValue::Number(JsonNumber::Float("1.5".to_string())));
        }
        other => panic!("unexpected {:?}", other),
    }
    assert_eq!(v.get("missing"), None);
    assert!(parse_json("{").is_none());
    assert_eq!(parse_json(" 7 ").unwrap().as_u64(), Some(7));
}

#[test]
fn glob_and_regex_wrappers() {
    // glob: a whole-path match; with the default options `*` also crosses `/`
    assert!(ContextGatherer::glob_match("*.rs", "main.rs"));
    assert!(!ContextGatherer::glob_match("*.rs", "main.py"));
    assert!(ContextGatherer::glob_match("src/*.rs", "src/a/b.rs"));
    assert!(!ContextGatherer::glob_match("src/*.rs", "lib/a.rs"));
    // regex: a match anywhere in the line
    let r = SearchFiles::compile("^fn \\w+").unwrap();
    let files = vec![SearchedFile {
        display: "f".into(),
        file_name: "f".into(),
        content: Some("fn main() {}\n  fn inner".into()),
    }];
    assert_eq!(SearchFiles::search(&r, None, &files).output, "f:1: fn main() {}");
    assert!(SearchFiles::compile("(").is_err());
}

#[test]
fn stream_chunks_take_the_first_choice_delta() {
    assert_eq!(first_choice_delta(vec![Some("Hel".into()), Some("other".into())]), Some("Hel".to_string()));
    assert_eq!(first_choice_delta(vec![None, Some("other".into())]), None);
    assert_eq!(first_choice_delta(vec![]), None);
}

#[test]
fn ollama_stream_lines_and_tokens() {
    assert_eq!(ollama_stream_data(""), None);
    assert_eq!(ollama_stream_data(r#"{"done":false}"#), Some(r#"{"done":false}"#.to_string()));
    let (t, end) = ollama_token("Hi".into(), false);
    assert_eq!((t.text.as_str(), t.done, end), ("Hi", false, false));
    let (t, end) = ollama_token(String::new(), true);
    assert!(t.done && end && t.text.is_empty());
}
