use hummingbird::error::HummingbirdError;
use hummingbird::json::parse_json;
use hummingbird::tools::{
    required_str_param, DirEntryInfo, ListDirectory, ReadFile, SearchFiles, SearchedFile, ShellExec, ShellOutcome,
    ShellPlan, ToolResult, WriteFile, WritePlan,
};

fn shell() -> ShellExec {
    ShellExec::new(".")
}

#[test]
fn blocks_dangerous_commands() {
    let params = parse_json(r#"{"command": "rm -rf /etc"}"#).unwrap();
    match shell().plan(&params).unwrap() {
        ShellPlan::Refuse(result) => {
            assert!(result.is_error);
            assert!(result.output.contains("blocked"));
            assert_eq!(result.output, "Command blocked by security policy: 'rm -rf /etc'");
        }
        other => panic!("unexpected {:?}", other),
    }
}

#[test]
fn blocks_prefixes_whatever_their_case() {
    let params = parse_json(r#"{"command": "chmod -R 777 /"}"#).unwrap();
    match shell().plan(&params).unwrap() {
        ShellPlan::Refuse(result) => {
            assert!(result.is_error);
            assert_eq!(result.output, "Command blocked by security policy: 'chmod -R 777 /'");
        }
        other => panic!("unexpected {:?}", other),
    }
    let params = parse_json(r#"{"command": "  RM -RF /etc"}"#).unwrap();
    assert!(matches!(shell().plan(&params).unwrap(), ShellPlan::Refuse(_)));
    assert!(shell().is_blocked("Chmod -r 777 /home"));
    assert!(!shell().is_blocked("chmod 644 notes.txt"));
}

#[test]
fn blocks_sudo() {
    let s = ShellExec { workspace_root: ".".into(), timeout_secs: 5, blocked_commands: vec!["sudo".into()] };
    let params = parse_json(r#"{"command": "sudo rm -rf /"}"#).unwrap();
    match s.plan(&params).unwrap() {
        ShellPlan::Refuse(result) => assert!(result.is_error),
        other => panic!("unexpected {:?}", other),
    }
}

#[test]
fn blocking_ignores_case_and_surrounding_space() {
    assert!(shell().is_blocked("  MKFS.ext4 /dev/sdb"));
    assert!(!shell().is_blocked("echo rm -rf /"));
}

#[test]
fn runs_allowed_commands_with_their_timeout() {
    let params = parse_json(r#"{"command": "sleep 10", "timeout_secs": 1}"#).unwrap();
    match shell().plan(&params).unwrap() {
        ShellPlan::Run { command, timeout_secs } => {
            assert_eq!(command, "sleep 10");
            assert_eq!(timeout_secs, 1);
        }
        other => panic!("unexpected {:?}", other),
    }
    let params = parse_json(r#"{"command": "echo hello"}"#).unwrap();
    match shell().plan(&params).unwrap() {
        ShellPlan::Run { timeout_secs, .. } => assert_eq!(timeout_secs, 60),
        other => panic!("unexpected {:?}", other),
    }
}

#[test]
fn shell_without_command_is_an_error() {
    let params = parse_json(r#"{"cmd": "ls"}"#).unwrap();
    match shell().plan(&params) {
        Err(HummingbirdError::Tool(m)) => assert_eq!(m, "missing 'command' parameter"),
        other => panic!("unexpected {:?}", other),
    }
}

#[test]
fn shell_reports() {
    let r = ShellExec::report(
        ShellOutcome::Exited { stdout: "hello\n".into(), stderr: String::new(), code: Some(0), success: true },
        60,
    );
    assert!(!r.is_error);
    assert_eq!(r.output, "exit=0\nhello\n");
    let r = ShellExec::report(
        ShellOutcome::Exited { stdout: "".into(), stderr: "bad".into(), code: Some(2), success: false },
        60,
    );
    assert!(r.is_error);
    assert_eq!(r.output, "exit=2\n\nSTDERR:\nbad");
    let r = ShellExec::report(ShellOutcome::TimedOut, 1);
    assert!(r.is_error);
    assert!(r.output.contains("timed out"));
    assert_eq!(r.output, "Command timed out after 1s");
    let r = ShellExec::report(ShellOutcome::SpawnFailed("no such file".into()), 1);
    assert_eq!(r.output, "Failed to spawn process: no such file");
    let r = ShellExec::report(
        ShellOutcome::Exited { stdout: "".into(), stderr: "".into(), code: None, success: false },
        60,
    );
    assert_eq!(r.output, "exit=-1\n");
}

#[test]
fn lists_directory_entries_sorted() {
    let entries = vec![
        DirEntryInfo { name: "b.txt".into(), is_dir: false },
        DirEntryInfo { name: "a.txt".into(), is_dir: false },
        DirEntryInfo { name: "src".into(), is_dir: true },
    ];
    let result = ListDirectory::listing(&entries);
    assert!(!result.is_error);
    assert_eq!(result.output, "a.txt\nb.txt\nsrc/");
}

#[test]
fn listing_error() {
    let r = ListDirectory::cannot_list("/nonexistent/dir", "No such file or directory (os error 2)");
    assert!(r.is_error);
    assert_eq!(r.output, "Cannot list '/nonexistent/dir': No such file or directory (os error 2)");
}

#[test]
fn read_file_outcomes() {
    let r = ReadFile::outcome("hello.txt", Ok("hello world".into()));
    assert!(!r.is_error);
    assert_eq!(r.output, "hello world");
    let r = ReadFile::outcome("/nonexistent/file.txt", Err("not found".into()));
    assert!(r.is_error);
    assert_eq!(r.output, "Failed to read '/nonexistent/file.txt': not found");
}

#[test]
fn write_file_report_counts_bytes() {
    let r = WriteFile::written("sub/file.txt", "hello");
    assert!(!r.is_error);
    assert_eq!(r.output, "Written 5 bytes to 'sub/file.txt'");
    let r = WriteFile::written("f", "é");
    assert_eq!(r.output, "Written 2 bytes to 'f'");
}

#[test]
fn write_plan_asks_confirmation_before_overwriting() {
    let params = parse_json(r#"{"path": "notes.txt", "content": "hi"}"#).unwrap();
    match WriteFile::plan(&params, false).unwrap() {
        WritePlan::Write { path, content } => {
            assert_eq!(path, "notes.txt");
            assert_eq!(content, "hi");
        }
        other => panic!("unexpected {:?}", other),
    }
    match WriteFile::plan(&params, true).unwrap() {
        WritePlan::Refuse(r) => {
            assert!(r.is_error);
            assert_eq!(r.output, "File 'notes.txt' already exists; set \"confirm\" to true to overwrite it");
        }
        other => panic!("unexpected {:?}", other),
    }
    let confirmed = parse_json(r#"{"path": "notes.txt", "content": "hi", "confirm": true}"#).unwrap();
    assert!(matches!(WriteFile::plan(&confirmed, true).unwrap(), WritePlan::Write { .. }));
    let declined = parse_json(r#"{"path": "notes.txt", "content": "hi", "confirm": false}"#).unwrap();
    assert!(matches!(WriteFile::plan(&declined, true).unwrap(), WritePlan::Refuse(_)));
    let no_content = parse_json(r#"{"path": "notes.txt"}"#).unwrap();
    match WriteFile::plan(&no_content, false) {
        Err(HummingbirdError::Tool(m)) => assert_eq!(m, "missing 'content' parameter"),
        other => panic!("unexpected {:?}", other),
    }
    let no_path = parse_json(r#"{"content": "hi"}"#).unwrap();
    match WriteFile::plan(&no_path, false) {
        Err(HummingbirdError::Tool(m)) => assert_eq!(m, "missing 'path' parameter"),
        other => panic!("unexpected {:?}", other),
    }
}

#[test]
fn errors_on_missing_params() {
    let params = parse_json(r#"{"path": "/tmp/x"}"#).unwrap();
    match required_str_param(&params, "content") {
        Err(HummingbirdError::Tool(m)) => assert_eq!(m, "missing 'content' parameter"),
        other => panic!("unexpected {:?}", other),
    }
    assert_eq!(required_str_param(&params, "path").unwrap(), "/tmp/x");
}

#[test]
fn tool_result_constructors() {
    let r = ToolResult::ok("fine");
    assert_eq!(r.output, "fine");
    assert!(!r.is_error);
    let r = ToolResult::err("bad");
    assert!(r.is_error);
}

#[test]
fn finds_matching_lines() {
    let pattern = SearchFiles::compile("fn main").unwrap();
    let files = vec![SearchedFile {
        display: "root/main.rs".into(),
        file_name: "main.rs".into(),
        content: Some("fn main() {\n    println!(\"hello\");\n}".into()),
    }];
    let r = SearchFiles::search(&pattern, None, &files);
    assert!(!r.is_error);
    assert_eq!(r.output, "root/main.rs:1: fn main() {");
}

#[test]
fn returns_no_matches_message() {
    let pattern = SearchFiles::compile("ZZZNOTFOUND").unwrap();
    let files = vec![SearchedFile { display: "a.txt".into(), file_name: "a.txt".into(), content: Some("hello".into()) }];
    let r = SearchFiles::search(&pattern, None, &files);
    assert!(r.output.contains("No matches"));
}

#[test]
fn rejects_invalid_regex() {
    match SearchFiles::compile("[invalid") {
        Err(HummingbirdError::Tool(m)) => assert!(m.starts_with("Invalid regex: ")),
        Err(other) => panic!("unexpected {:?}", other),
        Ok(_) => panic!("expected an error"),
    }
}

#[test]
fn search_filter_and_unreadable_files() {
    let pattern = SearchFiles::compile("x").unwrap();
    let files = vec![
        SearchedFile { display: "a.rs".into(), file_name: "a.rs".into(), content: Some("x1\ny\nx2".into()) },
        SearchedFile { display: "b.txt".into(), file_name: "b.txt".into(), content: Some("x".into()) },
        SearchedFile { display: "c.rs".into(), file_name: "c.rs".into(), content: None },
    ];
    let r = SearchFiles::search(&pattern, Some("*.rs"), &files);
    assert_eq!(r.output, "a.rs:1: x1\na.rs:3: x2");
    assert!(SearchFiles::name_filter(None, "anything"));
    assert!(!SearchFiles::name_filter(Some("*.rs"), "b.txt"));
}

#[test]
fn tool_names() {
    assert_eq!(ReadFile.name(), "read_file");
    assert_eq!(WriteFile.name(), "write_file");
    assert_eq!(ListDirectory.name(), "list_directory");
    assert_eq!(SearchFiles.name(), "search_files");
    assert_eq!(shell().name(), "shell_exec");
}

#[test]
fn parameter_schemas_match_serde_json() {
    let expect = |v: hummingbird::json::JsonValue, text: &str| assert_eq!(v, parse_json(text).unwrap());
    expect(
        ReadFile.parameters_schema(),
        r#"{"type":"object","properties":{"path":{"type":"string","description":"Absolute or relative path to the file"}},"required":["path"]}"#,
    );
    expect(
        WriteFile.parameters_schema(),
        r#"{"type":"object","properties":{"path":{"type":"string","description":"Path to write to"},"content":{"type":"string","description":"Content to write"},"confirm":{"type":"boolean","description":"Set to true to overwrite an existing file"}},"required":["path","content"]}"#,
    );
    expect(
        ListDirectory.parameters_schema(),
        r#"{"type":"object","properties":{"path":{"type":"string","description":"Directory path to list"}},"required":["path"]}"#,
    );
    expect(
        SearchFiles.parameters_schema(),
        r#"{"type":"object","properties":{"root":{"type":"string","description":"Root directory to search"},"pattern":{"type":"string","description":"Regex pattern to search for"},"glob":{"type":"string","description":"Optional file glob filter (e.g. *.rs)"}},"required":["root","pattern"]}"#,
    );
    expect(
        shell().parameters_schema(),
        r#"{"type":"object","properties":{"command":{"type":"string","description":"Shell command to run"},"timeout_secs":{"type":"integer","description":"Timeout in seconds (default 60)"}},"required":["command"]}"#,
    );
}

#[test]
fn tool_descriptors() {
    let d = hummingbird::tools::tool_descriptor("read_file", "Read it.", ReadFile.parameters_schema());
    assert_eq!(d.get("name").and_then(|v| v.as_str()).map(|s| s.as_str()), Some("read_file"));
    assert_eq!(d.get("description").and_then(|v| v.as_str()).map(|s| s.as_str()), Some("Read it."));
    assert_eq!(d.get("parameters"), Some(&ReadFile.parameters_schema()));
}
