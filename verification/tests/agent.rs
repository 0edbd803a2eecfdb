use hummingbird::agent::{
    parse_tool_call, try_parse_tool_call, unknown_tool_error, AgentRun, AgentRunResult, AgentSettings, AgentStep,
};
use hummingbird::error::HummingbirdError;
use hummingbird::json::{JsonValue, parse_json};
use hummingbird::tools::ToolResult;

/// Runs the agent's decisions over scripted replies, answering every tool call with
/// `tool_output`: the outcome of the run, as the application's loop would get it.
fn run_script(settings: &AgentSettings, prompt: &str, replies: &[&str], tool_output: &str) -> Result<AgentRunResult, HummingbirdError> {
    let mut run = AgentRun::start(prompt);
    let mut next = 0;
    loop {
        run.next_request(settings)?;
        let reply = if next < replies.len() { replies[next] } else { "Done." };
        next += 1;
        match run.on_reply(settings, reply.to_string()).expect("readable reply") {
            AgentStep::Finished(res) => return Ok(res),
            AgentStep::CallTool(mut r, call) => {
                let outcome = Ok(ToolResult::ok(tool_output));
                r.record_tool_result(&call.name, &outcome);
                run = r;
            }
        }
    }
}

#[test]
fn simple_completion_no_tool_calls() {
    let s = AgentSettings::new("mock-model");
    let result = run_script(&s, "Say hello", &["Hello from the agent!"], "").unwrap();
    assert_eq!(result.final_response, "Hello from the agent!");
    assert_eq!(result.iterations, 1);
}

#[test]
fn single_tool_use_then_final_response() {
    let call = r#"<tool_call>{"name":"read_file","arguments":{"path":"/tmp/x"}}</tool_call>"#;
    let s = AgentSettings::new("mock-model");
    let result = run_script(&s, "Read /tmp/x", &[call, "File content processed."], "contents").unwrap();
    assert_eq!(result.final_response, "File content processed.");
    assert_eq!(result.iterations, 2);
    let ms = result.history.as_messages();
    assert_eq!(ms.len(), 4);
    assert_eq!(ms[2].role, "user");
    assert_eq!(ms[2].content, "[Tool result: read_file]\ncontents");
}

#[test]
fn multi_step_tool_use() {
    let call1 = r#"<tool_call>{"name":"read_file","arguments":{"path":"/a"}}</tool_call>"#;
    let call2 = r#"<tool_call>{"name":"read_file","arguments":{"path":"/b"}}</tool_call>"#;
    let s = AgentSettings::new("mock-model");
    let result = run_script(&s, "Process files", &[call1, call2, "Both files processed."], "x").unwrap();
    assert_eq!(result.iterations, 3);
    assert_eq!(result.history.len(), 6);
    for (k, m) in result.history.as_messages().iter().enumerate() {
        assert_eq!(m.role, if k % 2 == 0 { "user" } else { "assistant" });
    }
}

#[test]
fn max_iteration_stop() {
    let calls: Vec<&str> = vec![r#"<tool_call>{"name":"x","arguments":{}}</tool_call>"#; 15];
    let mut s = AgentSettings::new("mock-model");
    s.max_iterations = 3;
    let result = run_script(&s, "Loop forever", &calls, "x");
    assert!(result.is_err());
    let text = result.unwrap_err().to_string();
    assert!(text.contains("max iterations"));
    assert_eq!(text, "Agent error: Agent reached max iterations (3) without completing");
}

#[test]
fn maintains_message_history() {
    let s = AgentSettings::new("mock-model");
    let result = run_script(&s, "Prompt", &["Response 1"], "").unwrap();
    assert!(result.history.len() >= 2);
    let ms = result.history.as_messages();
    assert_eq!(ms[0].role, "user");
    assert_eq!(ms[0].content, "Prompt");
    assert_eq!(ms[1].role, "assistant");
    assert_eq!(ms[1].content, "Response 1");
}

#[test]
fn requests_carry_the_system_prompt_first() {
    let mut s = AgentSettings::new("m");
    s.system_prompt = Some("be brief".into());
    let run = AgentRun::start("hi");
    let req = run.next_request(&s).unwrap();
    assert_eq!(req.messages.len(), 2);
    assert_eq!(req.messages[0].role, "system");
    assert_eq!(req.messages[0].content, "be brief");
    assert_eq!(req.messages[1].content, "hi");
    assert_eq!(req.model, "m");
    assert_eq!(req.max_tokens, 4096);
    assert!(!req.stream);
}

#[test]
fn tool_errors_are_reported_to_the_model() {
    let s = AgentSettings::new("m");
    let run = AgentRun::start("go");
    let step = run
        .on_reply(&s, r#"<tool_call>{"name":"nope","arguments":{}}</tool_call>"#.to_string())
        .unwrap();
    match step {
        AgentStep::CallTool(mut r, call) => {
            assert_eq!(call.name, "nope");
            let outcome: Result<ToolResult, HummingbirdError> = Err(unknown_tool_error(&call.name));
            r.record_tool_result(&call.name, &outcome);
            let ms = r.history.as_messages();
            assert_eq!(ms[2].content, "[Tool result: nope]\nTool error: Tool error: Unknown tool: nope");
            assert_eq!(r.iteration, 1);
        }
        _ => panic!("expected a tool call"),
    }
}

#[test]
fn parses_json_tool_calls() {
    let c = parse_tool_call(r#"{"name":"read_file","arguments":{"path":"/a"}}"#).unwrap();
    assert_eq!(c.name, "read_file");
    assert_eq!(c.params, parse_json(r#"{"path":"/a"}"#).unwrap());
    // arguments given as a JSON string are decoded
    let c = parse_tool_call(r#"{"name":"read_file","arguments":"{\"path\":\"/b\"}"}"#).unwrap();
    assert_eq!(c.params, parse_json(r#"{"path":"/b"}"#).unwrap());
    // arguments that are a string but not JSON become null
    let c = parse_tool_call(r#"{"name":"x","arguments":"not json"}"#).unwrap();
    assert_eq!(c.params, JsonValue::Null);
}

#[test]
fn parses_tagged_tool_calls() {
    let c = parse_tool_call("Let me look.\n<tool_call>\n {\"name\":\"list_directory\",\"arguments\":{\"path\":\".\"}} \n</tool_call>").unwrap();
    assert_eq!(c.name, "list_directory");
    // without arguments the parameters are null
    let c = parse_tool_call(r#"<tool_call>{"name":"x"}</tool_call>"#).unwrap();
    assert_eq!(c.params, JsonValue::Null);
}

#[test]
fn plain_replies_are_not_tool_calls() {
    assert!(parse_tool_call("The answer is 42.").is_none());
    assert!(parse_tool_call(r#"{"name":"x"}"#).is_none());
    assert!(parse_tool_call("<tool_call>not json</tool_call>").is_none());
    assert!(parse_tool_call("<tool_call>{\"name\":\"x\"}").is_none());
}

#[test]
fn reversed_tags_cannot_be_read() {
    assert!(try_parse_tool_call("</tool_call> then <tool_call>").is_none());
    assert!(matches!(try_parse_tool_call("hello"), Some(None)));
}

#[test]
fn io_errors_of_tools_are_reported_with_their_kind() {
    let s = AgentSettings::new("m");
    let run = AgentRun::start("go");
    let step = run
        .on_reply(&s, r#"<tool_call>{"name":"write_file","arguments":{}}</tool_call>"#.to_string())
        .unwrap();
    match step {
        AgentStep::CallTool(mut r, call) => {
            let io = std::io::Error::new(std::io::ErrorKind::Other, "disk full");
            let outcome: Result<ToolResult, HummingbirdError> = Err(HummingbirdError::Io(io));
            r.record_tool_result(&call.name, &outcome);
            let ms = r.history.as_messages();
            assert_eq!(ms[2].content, "[Tool result: write_file]\nTool error: IO error: disk full");
        }
        _ => panic!("expected a tool call"),
    }
}
