//! The agent: how a model's reply is read as a tool call, and the decisions of the loop that
//! alternates model calls and tool calls until the model answers without a tool call.
use vstd::prelude::*;
use crate::error::{HummingbirdError, message_prefix, message_spec, wraps_outside_error};
use crate::history::{Message, MessageHistory, msgs, tool_result_text};
use crate::inference::{InferenceRequest, DEFAULT_TEMPERATURE_BITS};
use crate::json::{JsonValue, json_decode, parse_json};
use crate::text::{concat2, decimal, find, has_prefix, first_occurrence, owned, push_decimal, push_str, string_of, chars_of, trim, trim_spec};
use crate::tools::ToolResult;

verus! {

/// How many model calls a run makes at most unless told otherwise.
pub const DEFAULT_MAX_ITERATIONS: u32 = 10;

/// A request from the model to run a tool.
#[derive(Debug)]
pub struct ToolCall {
    pub name: String,
    pub params: JsonValue,
}

/// A tool call as data: the tool's name and its parameters.
pub open spec fn call_view(c: ToolCall) -> (Seq<char>, JsonValue) {
    (c.name@, c.params)
}

/// The tool call of a reply that is itself a JSON object with a string `name` and an
/// `arguments` member. Arguments given as a string are decoded as JSON (`Null` when that
/// fails); other arguments are taken as they are.
pub open spec fn json_tool_call(content: Seq<char>) -> Option<(Seq<char>, JsonValue)> {
    match json_decode(content) {
        Some(v) => match (v.spec_str_field("name"@), v.spec_get("arguments"@)) {
            (Some(name), Some(args)) => Some(
                (
                    name,
                    match args {
                        JsonValue::Str(s) => match json_decode(s@) {
                            Some(p) => p,
                            None => JsonValue::Null,
                        },
                        other => other,
                    },
                ),
            ),
            _ => None,
        },
        None => None,
    }
}

/// Where the first opening tag and the first closing tag stand, when both occur.
pub open spec fn tag_span(content: Seq<char>) -> Option<(int, int)> {
    match (first_occurrence(content, "<tool_call>"@), first_occurrence(content, "</tool_call>"@)) {
        (Some(s), Some(e)) => Some((s, e)),
        _ => None,
    }
}

/// The first closing tag stands before the end of the first opening tag: the text between
/// them cannot be cut out.
pub open spec fn tags_out_of_order(content: Seq<char>) -> bool {
    tag_span(content) matches Some((s, e)) && e < s + "<tool_call>"@.len()
}

/// The tool call written between `<tool_call>` and `</tool_call>`: the trimmed text between
/// the first of each must be a JSON value with a string `name`; its parameters are its
/// `arguments` member, or `Null`.
pub open spec fn tagged_tool_call(content: Seq<char>) -> Option<(Seq<char>, JsonValue)> {
    match tag_span(content) {
        Some((s, e)) => {
            let inner = trim_spec(content.subrange(s + "<tool_call>"@.len(), e));
            match json_decode(inner) {
                Some(v) => match v.spec_str_field("name"@) {
                    Some(name) => Some((name, v.spec_index("arguments"@))),
                    None => None,
                },
                None => None,
            }
        },
        None => None,
    }
}

/// The tool call that a reply asks for: read as a JSON object first, then between tags.
pub open spec fn tool_call_spec(content: Seq<char>) -> Option<(Seq<char>, JsonValue)> {
    if json_tool_call(content) is Some {
        json_tool_call(content)
    } else {
        tagged_tool_call(content)
    }
}

/// Reading the reply cannot be completed: it is not a JSON tool call and its tags are out of
/// order.
pub open spec fn unreadable_reply(content: Seq<char>) -> bool {
    json_tool_call(content) is None && tags_out_of_order(content)
}

fn json_call(content: &str) -> (r: Option<ToolCall>)
    ensures
        r is Some <==> json_tool_call(content@) is Some,
        r matches Some(c) ==> json_tool_call(content@) == Some(call_view(c)),
{
    let v = parse_json(content);
    match v {
        Some(mut v) => {
            let name = v.str_field("name");
            match name {
                Some(name) => {
                    let args = v.take_member("arguments");
                    match args {
                        Some(JsonValue::Str(s)) => {
                            let p = parse_json(s.as_str());
                            let params = match p {
                                Some(p) => p,
                                None => JsonValue::Null,
                            };
                            Some(ToolCall { name, params })
                        },
                        Some(other) => Some(ToolCall { name, params: other }),
                        None => None,
                    }
                },
                None => None,
            }
        },
        None => None,
    }
}

fn tagged_call(content: &str) -> (r: Option<ToolCall>)
    requires
        !tags_out_of_order(content@),
    ensures
        r is Some <==> tagged_tool_call(content@) is Some,
        r matches Some(c) ==> tagged_tool_call(content@) == Some(call_view(c)),
{
    proof {
        reveal_strlit("<tool_call>");
    }
    let start = find(content, "<tool_call>");
    let end = find(content, "</tool_call>");
    match (start, end) {
        (Some(s), Some(e)) => {
            let cs = chars_of(content);
            let from = s + 11;
            let inner = string_of(cs.as_slice(), from, e);
            let trimmed = trim(inner.as_str());
            let v = parse_json(trimmed.as_str());
            match v {
                Some(mut v) => {
                    let name = v.str_field("name");
                    match name {
                        Some(name) => {
                            let args = v.take_member("arguments");
                            let params = match args {
                                Some(a) => a,
                                None => JsonValue::Null,
                            };
                            Some(ToolCall { name, params })
                        },
                        None => None,
                    }
                },
                None => None,
            }
        },
        _ => None,
    }
}

/// Reads the tool call that a reply asks for, if any: first the whole reply as a JSON object
/// with `name` and `arguments`, then the JSON between `<tool_call>` and `</tool_call>`.
pub fn parse_tool_call(content: &str) -> (r: Option<ToolCall>)
    requires
        !unreadable_reply(content@),
    ensures
        r is Some <==> tool_call_spec(content@) is Some,
        r matches Some(c) ==> tool_call_spec(content@) == Some(call_view(c)),
{
    let j = json_call(content);
    if j.is_some() {
        return j;
    }
    tagged_call(content)
}

/// Whether the closing tag comes before the end of the opening tag.
fn tags_reversed(content: &str) -> (r: bool)
    ensures
        r == tags_out_of_order(content@),
{
    proof {
        reveal_strlit("<tool_call>");
    }
    let start = find(content, "<tool_call>");
    let end = find(content, "</tool_call>");
    match (start, end) {
        (Some(s), Some(e)) => {
            proof {
                reveal_strlit("<tool_call>");
            }
            e < s || e - s < 11
        },
        _ => false,
    }
}

/// `parse_tool_call` for any reply: `None` when the reply cannot be read (see
/// `unreadable_reply`), otherwise what `parse_tool_call` returns.
pub fn try_parse_tool_call(content: &str) -> (r: Option<Option<ToolCall>>)
    ensures
        r is None <==> unreadable_reply(content@),
        r matches Some(c) ==> (c is Some <==> tool_call_spec(content@) is Some),
        r matches Some(Some(c)) ==> tool_call_spec(content@) == Some(call_view(c)),
{
    let j = json_call(content);
    if j.is_some() {
        return Some(j);
    }
    if tags_reversed(content) {
        return None;
    }
    Some(tagged_call(content))
}

// ---------------------------------------------------------------------------------------------
// The agent loop
// ---------------------------------------------------------------------------------------------

/// The settings of an agent: the model, how many model calls a run may make, the token
/// budget of each call and an optional system prompt.
#[derive(Debug)]
pub struct AgentSettings {
    pub model: String,
    pub max_iterations: u32,
    pub max_tokens: usize,
    pub system_prompt: Option<String>,
}

impl AgentSettings {
    /// Ten model calls of at most 4096 tokens each, and no system prompt.
    pub fn new(model: &str) -> (r: AgentSettings)
        ensures
            r.model@ == model@,
            r.max_iterations == DEFAULT_MAX_ITERATIONS,
            r.max_tokens == 4096,
            r.system_prompt is None,
    {
        AgentSettings { model: owned(model), max_iterations: DEFAULT_MAX_ITERATIONS, max_tokens: 4096, system_prompt: None }
    }

    /// The messages sent to the model: the system prompt first, as a `"system"` message,
    /// when there is one, then the conversation.
    pub open spec fn request_messages(&self, history: Seq<(Seq<char>, Seq<char>)>) -> Seq<(Seq<char>, Seq<char>)> {
        match self.system_prompt {
            Some(s) => seq![("system"@, s@)] + history,
            None => history,
        }
    }

    /// The request for the next model call of a conversation.
    pub fn build_request(&self, history: &MessageHistory) -> (r: InferenceRequest)
        ensures
            msgs(r.messages@) == self.request_messages(history.view()),
            r.model@ == self.model@,
            r.max_tokens == self.max_tokens,
            r.temperature_bits == DEFAULT_TEMPERATURE_BITS,
            !r.stream,
    {
        let mut messages = history.messages.clone();
        assert(messages@ =~= history.messages@);
        match &self.system_prompt {
            Some(sys) => {
                let m = Message::new("system", sys.as_str());
                let ghost before = messages@;
                messages.insert(0, m);
                assert(msgs(messages@) =~= seq![("system"@, sys@)] + msgs(before));
            },
            None => {},
        }
        InferenceRequest {
            messages,
            model: self.model.clone(),
            max_tokens: self.max_tokens,
            temperature_bits: DEFAULT_TEMPERATURE_BITS,
            stream: false,
        }
    }

    /// The error of a run that used up its model calls.
    pub fn max_iterations_error(&self) -> (r: HummingbirdError)
        ensures
            r matches HummingbirdError::Agent(m) && m@ == max_iterations_error_text(self.max_iterations),
    {
        let mut s = owned("Agent reached max iterations (");
        push_decimal(&mut s, self.max_iterations as u64);
        push_str(&mut s, ") without completing");
        proof {
            reveal_strlit("Agent reached max iterations (");
            reveal_strlit(") without completing");
        }
        HummingbirdError::Agent(s)
    }
}

/// The message of a run that used up its model calls.
pub open spec fn max_iterations_error_text(max: u32) -> Seq<char> {
    "Agent reached max iterations ("@ + decimal(max as nat) + ") without completing"@
}

/// The outcome of a completed run: the model's final answer, how many model calls it took,
/// and the whole conversation.
#[derive(Debug)]
pub struct AgentRunResult {
    pub final_response: String,
    pub iterations: u32,
    pub history: MessageHistory,
}

/// What the loop does after a model reply.
#[derive(Debug)]
pub enum AgentStep {
    /// Run this tool, then report its outcome with `record_tool_result`.
    CallTool(AgentRun, ToolCall),
    /// The model answered without a tool call: the run is complete.
    Finished(AgentRunResult),
}

/// A run in progress: the conversation so far and how many model calls have completed.
#[derive(Debug)]
pub struct AgentRun {
    pub history: MessageHistory,
    pub iteration: u32,
}

/// The text that reports a tool's outcome to the model: its output, or the error's message
/// after `"Tool error: "`. Of an error that carries an outside error, whose own text comes
/// from its crate, the message is known to start with the prefix of its kind.
pub open spec fn tool_outcome_text(outcome: Result<ToolResult, HummingbirdError>, text: Seq<char>) -> bool {
    match outcome {
        Ok(r) => text == r.output@,
        Err(e) => if wraps_outside_error(e) {
            has_prefix(text, "Tool error: "@ + message_prefix(e))
        } else {
            text == "Tool error: "@ + message_spec(e)
        },
    }
}

/// The conversation alternates: the user speaks first (the prompt, then each tool result),
/// and the assistant after each of the user's messages.
pub open spec fn roles_alternate(h: Seq<(Seq<char>, Seq<char>)>) -> bool {
    forall|k: int| 0 <= k < h.len() ==> #[trigger] h[k].0 == (if k % 2 == 0 { "user"@ } else { "assistant"@ })
}

/// A message from the right speaker keeps a conversation alternating.
proof fn lemma_alternate_push(h: Seq<(Seq<char>, Seq<char>)>, m: (Seq<char>, Seq<char>))
    requires
        roles_alternate(h),
        m.0 == (if h.len() % 2 == 0 { "user"@ } else { "assistant"@ }),
    ensures
        roles_alternate(h.push(m)),
{
    let g = h.push(m);
    assert forall|k: int| 0 <= k < g.len() implies #[trigger] g[k].0 == (if k % 2 == 0 { "user"@ } else { "assistant"@ }) by {
        if k < h.len() {
            assert(g[k] == h[k]);
        }
    }
}

impl AgentRun {
    /// The run is consistent: the conversation opens with the user's prompt, and holds two
    /// messages (a reply and a tool result) for each completed model call after it, the
    /// roles alternating.
    pub open spec fn wf(&self) -> bool {
        &&& self.history.messages@.len() == 1 + 2 * self.iteration
        &&& self.history.view()[0].0 == "user"@
        &&& roles_alternate(self.history.view())
    }

    /// A new run for the user's prompt.
    pub fn start(prompt: &str) -> (r: AgentRun)
        ensures
            r.wf(),
            r.iteration == 0,
            r.history.view() == seq![("user"@, prompt@)],
    {
        let mut history = MessageHistory::new();
        history.push_user(prompt);
        assert(history.view() =~= seq![("user"@, prompt@)]);
        assert(history.view()[0].0 == "user"@);
        AgentRun { history, iteration: 0 }
    }

    /// The request for the next model call, or the error of a run that has used up its model
    /// calls.
    pub fn next_request(&self, settings: &AgentSettings) -> (r: Result<InferenceRequest, HummingbirdError>)
        ensures
            r is Err <==> self.iteration >= settings.max_iterations,
            r matches Err(e) ==> e matches HummingbirdError::Agent(m) && m@ == max_iterations_error_text(
                settings.max_iterations,
            ),
            r matches Ok(q) ==> msgs(q.messages@) == settings.request_messages(self.history.view())
                && q.model@ == settings.model@ && q.max_tokens == settings.max_tokens
                && q.temperature_bits == DEFAULT_TEMPERATURE_BITS && !q.stream,
    {
        if self.iteration >= settings.max_iterations {
            Err(settings.max_iterations_error())
        } else {
            Ok(settings.build_request(&self.history))
        }
    }

    /// Takes the model's reply. A reply that asks for a tool is recorded and the tool is to
    /// be run; any other reply is the final answer. `None` when the reply cannot be read
    /// (see `unreadable_reply`).
    pub fn on_reply(self, settings: &AgentSettings, content: String) -> (r: Option<AgentStep>)
        requires
            self.wf(),
            self.iteration < settings.max_iterations,
        ensures
            r is None <==> unreadable_reply(content@),
            r matches Some(AgentStep::CallTool(run, call)) ==> {
                &&& tool_call_spec(content@) == Some(call_view(call))
                &&& run.history.view() == self.history.view().push(("assistant"@, content@))
                &&& run.iteration == self.iteration
                &&& roles_alternate(run.history.view())
            },
            r matches Some(AgentStep::Finished(res)) ==> {
                &&& tool_call_spec(content@) is None
                &&& res.final_response@ == content@
                &&& res.iterations == self.iteration + 1
                &&& res.iterations <= settings.max_iterations
                &&& res.history.view() == self.history.view().push(("assistant"@, content@))
                &&& res.history.messages@.len() == 2 * res.iterations
                &&& res.history.view()[0].0 == "user"@
                &&& roles_alternate(res.history.view())
            },
    {
        let parsed = try_parse_tool_call(content.as_str());
        match parsed {
            None => None,
            Some(Some(call)) => {
                let mut run = self;
                proof {
                    lemma_alternate_push(run.history.view(), ("assistant"@, content@));
                }
                run.history.push_assistant(content.as_str());
                Some(AgentStep::CallTool(run, call))
            },
            Some(None) => {
                let mut history = self.history;
                proof {
                    lemma_alternate_push(history.view(), ("assistant"@, content@));
                }
                history.push_assistant(content.as_str());
                assert(history.view()[0] == self.history.view()[0]);
                Some(AgentStep::Finished(AgentRunResult { final_response: content, iterations: self.iteration + 1, history }))
            },
        }
    }

    /// Records the outcome of the tool that the last reply asked for, which completes one
    /// model call.
    pub fn record_tool_result(&mut self, tool_name: &str, outcome: &Result<ToolResult, HummingbirdError>)
        requires
            old(self).history.messages@.len() == 2 + 2 * old(self).iteration,
            old(self).history.view()[0].0 == "user"@,
            roles_alternate(old(self).history.view()),
            old(self).iteration < u32::MAX,
        ensures
            final(self).wf(),
            final(self).iteration == old(self).iteration + 1,
            exists|text: Seq<char>| tool_outcome_text(*outcome, text) && final(self).history.view()
                == old(self).history.view().push(("user"@, tool_result_text(tool_name@, text))),
    {
        let text = match outcome {
            Ok(r) => r.output.clone(),
            Err(e) => {
                let m = e.to_string();
                proof {
                    reveal_strlit("Tool error: ");
                }
                let t = concat2("Tool error: ", m.as_str());
                proof {
                    let pre = message_prefix(*e);
                    if wraps_outside_error(*e) {
                        assert(t@.subrange(0, ("Tool error: "@ + pre).len() as int) =~= "Tool error: "@ + m@.subrange(0, pre.len() as int));
                    }
                }
                t
            },
        };
        let ghost before = self.history.view();
        assert(before.len() == self.history.messages@.len());
        proof {
            lemma_alternate_push(before, ("user"@, tool_result_text(tool_name@, text@)));
        }
        self.history.push_tool_result(tool_name, text.as_str());
        assert(self.history.view()[0] == before[0]);
        assert(self.history.view().len() == self.history.messages@.len());
        self.iteration = self.iteration + 1;
        assert(tool_outcome_text(*outcome, text@));
    }
}

/// The error for a tool name that no tool answers to.
pub fn unknown_tool_error(name: &str) -> (r: HummingbirdError)
    ensures
        r matches HummingbirdError::Tool(m) && m@ == "Unknown tool: "@ + name@,
{
    HummingbirdError::Tool(concat2("Unknown tool: ", name))
}

/// Every model call sees the whole conversation, with the system prompt first when there is
/// one: however long the conversation has grown, the request is the system message followed
/// by every message of the conversation in order, and nothing else.
pub proof fn law_requests_carry_the_system_prompt(settings: AgentSettings, history: Seq<(Seq<char>, Seq<char>)>)
    ensures
        settings.system_prompt matches Some(s) ==> {
            let r = settings.request_messages(history);
            &&& r.len() == history.len() + 1
            &&& r[0] == ("system"@, s@)
            &&& forall|k: int| 0 <= k < history.len() ==> r[k + 1] == history[k]
        },
        settings.system_prompt is None ==> settings.request_messages(history) == history,
{
}

} // verus!
