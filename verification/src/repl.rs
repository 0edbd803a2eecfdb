//! The interactive session's decisions: what a line typed at the prompt asks for, how the
//! conversation is listed, and what of an agent run the session keeps.
use vstd::prelude::*;
use crate::history::{Message, MessageHistory};
use crate::text::{chars_of, decimal, owned, push_decimal, push_str, string_of, trim, trim_spec};

verus! {

/// What a line typed at the prompt asks for.
#[derive(Debug)]
pub enum ReplInput {
    /// End the session.
    Quit,
    /// List the conversation so far.
    History,
    /// Revert the last edit.
    Undo,
    /// Nothing: prompt again.
    Empty,
    /// A task for the agent (the trimmed line).
    Prompt(String),
}

/// What a line asks for, as data.
pub enum InputKind {
    Quit,
    History,
    Undo,
    Empty,
    Prompt(Seq<char>),
}

pub open spec fn input_kind(r: ReplInput) -> InputKind {
    match r {
        ReplInput::Quit => InputKind::Quit,
        ReplInput::History => InputKind::History,
        ReplInput::Undo => InputKind::Undo,
        ReplInput::Empty => InputKind::Empty,
        ReplInput::Prompt(p) => InputKind::Prompt(p@),
    }
}

/// The words that end a session.
pub open spec fn is_quit(t: Seq<char>) -> bool {
    t == "/quit"@ || t == "/exit"@ || t == "exit"@ || t == "quit"@
}

/// What a line asks for, judged on the line without its surrounding whitespace.
pub open spec fn input_spec(line: Seq<char>) -> InputKind {
    let t = trim_spec(line);
    if is_quit(t) {
        InputKind::Quit
    } else if t == "/history"@ {
        InputKind::History
    } else if t == "/undo"@ {
        InputKind::Undo
    } else if t.len() == 0 {
        InputKind::Empty
    } else {
        InputKind::Prompt(t)
    }
}

/// Reads a line typed at the prompt.
pub fn read_input(line: &str) -> (r: ReplInput)
    ensures
        input_kind(r) == input_spec(line@),
{
    let t = trim(line);
    if t == owned("/quit") || t == owned("/exit") || t == owned("exit") || t == owned("quit") {
        ReplInput::Quit
    } else if t == owned("/history") {
        ReplInput::History
    } else if t == owned("/undo") {
        ReplInput::Undo
    } else if chars_of(t.as_str()).len() == 0 {
        ReplInput::Empty
    } else {
        ReplInput::Prompt(t)
    }
}

/// The first 80 characters of a message's content.
pub open spec fn preview(content: Seq<char>) -> Seq<char> {
    if content.len() <= 80 {
        content
    } else {
        content.subrange(0, 80)
    }
}

/// The line that lists message `i`: its index, role and the start of its content.
pub open spec fn history_entry_spec(i: nat, role: Seq<char>, content: Seq<char>) -> Seq<char> {
    "["@ + decimal(i) + "] "@ + role + ": "@ + preview(content) + "..."@
}

/// The line above the listing of `n` messages.
pub open spec fn history_header_spec(n: nat) -> Seq<char> {
    "--- Conversation History ("@ + decimal(n) + " messages) ---"@
}

/// The line that lists message `i`.
pub fn history_entry(i: usize, m: &Message) -> (r: String)
    ensures
        r@ == history_entry_spec(i as nat, m.role@, m.content@),
{
    let c = chars_of(m.content.as_str());
    let cut = if c.len() <= 80 { c.len() } else { 80 };
    let p = string_of(c.as_slice(), 0, cut);
    proof {
        if c@.len() <= 80 {
            assert(c@.subrange(0, cut as int) =~= c@);
        }
    }
    let mut s = owned("[");
    push_decimal(&mut s, i as u64);
    push_str(&mut s, "] ");
    push_str(&mut s, m.role.as_str());
    push_str(&mut s, ": ");
    push_str(&mut s, p.as_str());
    push_str(&mut s, "...");
    s
}

/// The line above the listing of `n` messages.
pub fn history_header(n: usize) -> (r: String)
    ensures
        r@ == history_header_spec(n as nat),
{
    let mut s = owned("--- Conversation History (");
    push_decimal(&mut s, n as u64);
    push_str(&mut s, " messages) ---");
    s
}

/// The listing of a conversation: the header, then one line per message, oldest first.
pub fn history_listing(h: &MessageHistory) -> (r: Vec<String>)
    ensures
        r@.len() == h.messages@.len() + 1,
        r@[0]@ == history_header_spec(h.messages@.len()),
        forall|k: int|
            0 <= k < h.messages@.len() ==> #[trigger] r@[k + 1]@ == history_entry_spec(
                k as nat,
                h.messages@[k].role@,
                h.messages@[k].content@,
            ),
{
    let ms = h.as_messages();
    let mut r: Vec<String> = Vec::new();
    r.push(history_header(ms.len()));
    let mut i: usize = 0;
    while i < ms.len()
        invariant
            ms@ == h.messages@,
            i <= ms@.len(),
            r@.len() == i + 1,
            r@[0]@ == history_header_spec(h.messages@.len()),
            forall|k: int|
                0 <= k < i ==> #[trigger] r@[k + 1]@ == history_entry_spec(
                    k as nat,
                    h.messages@[k].role@,
                    h.messages@[k].content@,
                ),
        decreases ms@.len() - i,
    {
        r.push(history_entry(i, &ms[i]));
        i = i + 1;
    }
    r
}

/// A message from the assistant.
pub open spec fn is_assistant(m: (Seq<char>, Seq<char>)) -> bool {
    m.0 == "assistant"@
}

/// The assistant's messages, in order.
pub open spec fn assistant_only(ms: Seq<(Seq<char>, Seq<char>)>) -> Seq<(Seq<char>, Seq<char>)> {
    ms.filter(|m: (Seq<char>, Seq<char>)| is_assistant(m))
}

/// Keeps, from the messages of an agent run, the assistant's, in order.
pub fn keep_assistant_replies(history: &mut MessageHistory, run: &MessageHistory)
    ensures
        final(history).view() == old(history).view() + assistant_only(run.view()),
{
    let ms = run.as_messages();
    let ghost start = history.view();
    let ghost all = run.view();
    let mut i: usize = 0;
    while i < ms.len()
        invariant
            ms@ == run.messages@,
            all == run.view(),
            i <= ms@.len(),
            history.view() == start + assistant_only(all.take(i as int)),
        decreases ms@.len() - i,
    {
        proof {
            reveal(Seq::filter);
        }
        assert(all.take(i + 1).drop_last() =~= all.take(i as int));
        assert(all.take(i + 1).last() == (ms@[i as int].role@, ms@[i as int].content@));
        if ms[i].role == owned("assistant") {
            history.push_assistant(ms[i].content.as_str());
            assert(history.view() =~= start + assistant_only(all.take(i + 1)));
        } else {
            assert(history.view() =~= start + assistant_only(all.take(i + 1)));
        }
        i = i + 1;
    }
    assert(all.take(i as int) =~= all);
}

} // verus!
