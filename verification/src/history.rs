//! Chat messages and the conversation history of one agent run.
use vstd::prelude::*;
use crate::text::{concat2, push_str, owned};

verus! {

/// One chat message: who speaks (`"user"`, `"assistant"` or `"system"`) and what is said.
#[derive(Debug)]
pub struct Message {
    pub role: String,
    pub content: String,
}

impl Clone for Message {
    fn clone(&self) -> (r: Self)
        ensures
            r == *self,
    {
        Message { role: self.role.clone(), content: self.content.clone() }
    }
}

/// A message as text: its role and its content.
pub open spec fn msg(m: Message) -> (Seq<char>, Seq<char>) {
    (m.role@, m.content@)
}

/// Messages as text.
pub open spec fn msgs(ms: Seq<Message>) -> Seq<(Seq<char>, Seq<char>)> {
    ms.map_values(|m: Message| msg(m))
}

impl Message {
    /// A message with the given role and content.
    pub fn new(role: &str, content: &str) -> (r: Message)
        ensures
            r.role@ == role@,
            r.content@ == content@,
    {
        Message { role: owned(role), content: owned(content) }
    }
}

/// The text of the message that reports what a tool returned.
pub open spec fn tool_result_text(tool_name: Seq<char>, result: Seq<char>) -> Seq<char> {
    "[Tool result: "@ + tool_name + "]\n"@ + result
}

/// The messages of a conversation, oldest first.
#[derive(Debug)]
pub struct MessageHistory {
    pub messages: Vec<Message>,
}

impl Clone for MessageHistory {
    fn clone(&self) -> (r: Self)
        ensures
            r.messages@ == self.messages@,
    {
        MessageHistory { messages: self.messages.clone() }
    }
}

impl MessageHistory {
    /// The history as text.
    pub open spec fn view(&self) -> Seq<(Seq<char>, Seq<char>)> {
        msgs(self.messages@)
    }

    /// An empty history.
    pub fn new() -> (r: MessageHistory)
        ensures
            r.messages@.len() == 0,
    {
        MessageHistory { messages: Vec::new() }
    }

    /// Appends a message from the user.
    pub fn push_user(&mut self, content: &str)
        ensures
            final(self).view() == old(self).view().push(("user"@, content@)),
    {
        let m = Message::new("user", content);
        self.messages.push(m);
        assert(final(self).view() =~= old(self).view().push(("user"@, content@)));
    }

    /// Appends a message from the assistant.
    pub fn push_assistant(&mut self, content: &str)
        ensures
            final(self).view() == old(self).view().push(("assistant"@, content@)),
    {
        let m = Message::new("assistant", content);
        self.messages.push(m);
        assert(final(self).view() =~= old(self).view().push(("assistant"@, content@)));
    }

    /// Appends, as a message from the user, what the tool `tool_name` returned.
    pub fn push_tool_result(&mut self, tool_name: &str, result: &str)
        ensures
            final(self).view() == old(self).view().push(("user"@, tool_result_text(tool_name@, result@))),
    {
        let mut content = concat2("[Tool result: ", tool_name);
        push_str(&mut content, "]\n");
        push_str(&mut content, result);
        proof {
            reveal_strlit("[Tool result: ");
            reveal_strlit("]\n");
        }
        let m = Message { role: owned("user"), content };
        self.messages.push(m);
        assert(final(self).view() =~= old(self).view().push(("user"@, tool_result_text(tool_name@, result@))));
    }

    /// The messages, oldest first.
    pub fn as_messages(&self) -> (r: &[Message])
        ensures
            r@ == self.messages@,
    {
        self.messages.as_slice()
    }

    /// The number of messages.
    pub fn len(&self) -> (r: usize)
        ensures
            r == self.messages@.len(),
    {
        self.messages.len()
    }

    /// Whether there are no messages.
    pub fn is_empty(&self) -> (r: bool)
        ensures
            r == (self.messages@.len() == 0),
    {
        self.messages.len() == 0
    }
}

impl Default for MessageHistory {
    fn default() -> (r: MessageHistory)
        ensures
            r.messages@.len() == 0,
    {
        MessageHistory::new()
    }
}

} // verus!
