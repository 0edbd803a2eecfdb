//! What the model providers (Ollama, OpenAI, Anthropic) decide: endpoints, error messages,
//! the text of an answer, and the reading of streamed lines.
use vstd::prelude::*;
use crate::error::HummingbirdError;
use crate::json::{json_decode, parse_json};
use crate::inference::StreamToken;
use crate::text::{chars_of, concat2, decimal, owned, push_decimal, push_str, strip_prefix, has_prefix, trim_start_matches, trim_start_matches_spec};

verus! {

/// The address of Ollama on the local machine.
pub fn ollama_default_url() -> (r: &'static str)
    ensures
        r@ == "http://localhost:11434"@,
{
    "http://localhost:11434"
}

/// OpenAI's API address.
pub fn openai_default_url() -> (r: &'static str)
    ensures
        r@ == "https://api.openai.com/v1"@,
{
    "https://api.openai.com/v1"
}

/// Anthropic's messages endpoint.
pub fn anthropic_api_url() -> (r: &'static str)
    ensures
        r@ == "https://api.anthropic.com/v1/messages"@,
{
    "https://api.anthropic.com/v1/messages"
}

/// The version of Anthropic's API that requests name.
pub fn anthropic_version() -> (r: &'static str)
    ensures
        r@ == "2023-06-01"@,
{
    "2023-06-01"
}

/// Ollama's chat endpoint under a base address.
pub fn ollama_chat_url(base_url: &str) -> (r: String)
    ensures
        r@ == base_url@ + "/api/chat"@,
{
    concat2(base_url, "/api/chat")
}

/// OpenAI's chat endpoint under a base address.
pub fn openai_chat_url(base_url: &str) -> (r: String)
    ensures
        r@ == base_url@ + "/chat/completions"@,
{
    concat2(base_url, "/chat/completions")
}

/// The error of a provider that answered with a failure status.
pub fn status_error(provider: &str, status: u16, body: &str) -> (r: HummingbirdError)
    ensures
        r matches HummingbirdError::Inference(m) && m@ == provider@ + " "@ + decimal(status as nat) + ": "@ + body@,
{
    let mut m = concat2(provider, " ");
    push_decimal(&mut m, status as u64);
    push_str(&mut m, ": ");
    push_str(&mut m, body);
    HummingbirdError::Inference(m)
}

/// The error when the environment variable that holds a provider's key is not set.
pub fn missing_key_error(var: &str) -> (r: HummingbirdError)
    ensures
        r matches HummingbirdError::Config(m) && m@ == var@ + " not set"@,
{
    HummingbirdError::Config(concat2(var, " not set"))
}

/// A block of an Anthropic answer: its type and its text, if it has one.
#[derive(Debug)]
pub struct ContentBlock {
    pub kind: String,
    pub text: Option<String>,
}

/// The text of an Anthropic answer: the texts of its `"text"` blocks, concatenated.
pub open spec fn anthropic_text_spec(blocks: Seq<ContentBlock>) -> Seq<char>
    decreases blocks.len(),
{
    if blocks.len() == 0 {
        seq![]
    } else {
        let b = blocks.last();
        anthropic_text_spec(blocks.drop_last()) + match b.text {
            Some(t) if b.kind@ == "text"@ => t@,
            _ => seq![],
        }
    }
}

/// Concatenates the texts of an Anthropic answer's `"text"` blocks.
pub fn anthropic_text(blocks: &[ContentBlock]) -> (r: String)
    ensures
        r@ == anthropic_text_spec(blocks@),
{
    let mut out = String::new();
    let n = blocks.len();
    let mut i: usize = 0;
    let text_kind = owned("text");
    while i < n
        invariant
            n == blocks@.len(),
            i <= n,
            text_kind@ == "text"@,
            out@ == anthropic_text_spec(blocks@.take(i as int)),
        decreases n - i,
    {
        assert(blocks@.take(i + 1).drop_last() =~= blocks@.take(i as int));
        let b = &blocks[i];
        if b.kind == text_kind {
            match &b.text {
                Some(t) => push_str(&mut out, t.as_str()),
                None => {},
            }
        }
        assert(out@ =~= anthropic_text_spec(blocks@.take(i + 1)));
        i = i + 1;
    }
    assert(blocks@.take(n as int) =~= blocks@);
    out
}

/// The text of an OpenAI answer: the content of the first choice's message, or nothing.
/// `choices` holds, for each choice, its message's content when it has one.
pub fn first_choice_text(choices: Vec<Option<String>>) -> (r: String)
    ensures
        r@ == (if choices@.len() > 0 && choices@[0] is Some {
            choices@[0]->0@
        } else {
            seq![]
        }),
{
    let mut cs = choices;
    if cs.len() == 0 {
        return String::new();
    }
    let first = cs.swap_remove(0);
    match first {
        Some(t) => t,
        None => String::new(),
    }
}

/// The text of one streamed OpenAI chunk: the content of the first choice's delta, if the
/// chunk has a choice and its delta has content. `deltas` holds, for each choice, its
/// delta's content when it has one.
pub fn first_choice_delta(deltas: Vec<Option<String>>) -> (r: Option<String>)
    ensures
        r is Some <==> deltas@.len() > 0 && deltas@[0] is Some,
        r matches Some(t) ==> deltas@[0] == Some(t),
{
    let mut ds = deltas;
    if ds.len() == 0 {
        return None;
    }
    ds.swap_remove(0)
}

/// What one streamed line means.
#[derive(Debug)]
pub enum StreamEvent {
    /// Nothing to pass on.
    Ignore,
    /// A piece of the answer, and whether the stream ends with it.
    Token { text: String, done: bool },
    /// The stream has ended.
    Stop,
}

/// What a line of Anthropic's event stream means: a `data: ` line holding a JSON event of
/// type `content_block_delta` with a string `delta.text` is a piece of the answer; one of
/// type `message_stop` ends the stream; anything else is ignored.
pub open spec fn anthropic_event_spec(line: Seq<char>) -> StreamEventKind {
    if has_prefix(line, "data: "@) {
        match json_decode(line.subrange("data: "@.len() as int, line.len() as int)) {
            Some(ev) => {
                let kind = match ev.spec_index("type"@).spec_as_str() {
                    Some(k) => k,
                    None => seq![],
                };
                if kind == "content_block_delta"@ {
                    match ev.spec_index("delta"@).spec_index("text"@).spec_as_str() {
                        Some(t) => StreamEventKind::Token(t, false),
                        None => StreamEventKind::Ignore,
                    }
                } else if kind == "message_stop"@ {
                    StreamEventKind::Stop
                } else {
                    StreamEventKind::Ignore
                }
            },
            None => StreamEventKind::Ignore,
        }
    } else {
        StreamEventKind::Ignore
    }
}

/// A stream event as data.
pub enum StreamEventKind {
    Ignore,
    Token(Seq<char>, bool),
    Stop,
}

/// A stream event as data.
pub open spec fn event_kind(e: StreamEvent) -> StreamEventKind {
    match e {
        StreamEvent::Ignore => StreamEventKind::Ignore,
        StreamEvent::Token { text, done } => StreamEventKind::Token(text@, done),
        StreamEvent::Stop => StreamEventKind::Stop,
    }
}

/// Reads one line of Anthropic's event stream.
pub fn anthropic_stream_event(line: &str) -> (r: StreamEvent)
    ensures
        event_kind(r) == anthropic_event_spec(line@),
{
    proof {
        reveal_strlit("data: ");
    }
    let data = strip_prefix(line, "data: ");
    match data {
        None => StreamEvent::Ignore,
        Some(d) => {
            let ev = parse_json(d.as_str());
            match ev {
                None => StreamEvent::Ignore,
                Some(ev) => {
                    let kind = match ev.get("type") {
                        Some(t) => match t.as_str() {
                            Some(k) => k.clone(),
                            None => String::new(),
                        },
                        None => String::new(),
                    };
                    let delta_kind = owned("content_block_delta");
                    let stop_kind = owned("message_stop");
                    if kind == delta_kind {
                        let text = match ev.get("delta") {
                            Some(d) => d.str_field("text"),
                            None => None,
                        };
                        match text {
                            Some(t) => StreamEvent::Token { text: t, done: false },
                            None => StreamEvent::Ignore,
                        }
                    } else if kind == stop_kind {
                        StreamEvent::Stop
                    } else {
                        StreamEvent::Ignore
                    }
                },
            }
        },
    }
}

/// What a line of OpenAI's event stream holds.
#[derive(Debug)]
pub enum OpenAiLine {
    /// The end of the stream (`[DONE]`).
    Done,
    /// An empty line.
    Blank,
    /// A JSON chunk to decode.
    Data(String),
}

/// Reads one line of Ollama's stream: an empty line is passed over (`None`); any other is a
/// JSON chunk to decode.
pub fn ollama_stream_data(line: &str) -> (r: Option<String>)
    ensures
        r is None <==> line@.len() == 0,
        r matches Some(t) ==> t@ == line@,
{
    if chars_of(line).len() == 0 {
        None
    } else {
        Some(owned(line))
    }
}

/// The token of one decoded Ollama chunk, with its content and its `done` flag, and whether
/// the stream ends with it (when `done` is set).
pub fn ollama_token(content: String, done: bool) -> (r: (StreamToken, bool))
    ensures
        r.0.text@ == content@,
        r.0.done == done,
        r.1 == done,
{
    (StreamToken { text: content, done }, done)
}

/// Reads one line of OpenAI's event stream: every leading `data: ` is removed; what remains
/// is the end marker, nothing, or a chunk.
pub fn openai_stream_line(line: &str) -> (r: OpenAiLine)
    ensures
        ({
            let rest = trim_start_matches_spec(line@, "data: "@);
            &&& (r is Done <==> rest == "[DONE]"@)
            &&& (r is Blank <==> rest != "[DONE]"@ && rest.len() == 0)
            &&& (r matches OpenAiLine::Data(d) ==> d@ == rest)
        }),
{
    let rest = trim_start_matches(line, "data: ");
    let done = owned("[DONE]");
    if rest == done {
        OpenAiLine::Done
    } else if crate::text::byte_len_of(rest.as_str()) == 0 {
        proof {
            if rest@.len() > 0 {
                vstd::utf8::encode_utf8_first_scalar(rest@);
            }
        }
        OpenAiLine::Blank
    } else {
        proof {
            if rest@.len() == 0 {
                assert(rest@ =~= seq![]);
            }
        }
        OpenAiLine::Data(rest)
    }
}

} // verus!
