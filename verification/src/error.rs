//! The library's error type and its messages.
use vstd::prelude::*;
use crate::text::{decimal, push_decimal, push_str, owned};

verus! {

/// std's I/O error, carried through.
#[verifier::external_type_specification]
#[verifier::external_body]
pub struct ExIoError(std::io::Error);

/// serde_json's error, carried through.
#[verifier::external_type_specification]
#[verifier::external_body]
pub struct ExJsonError(serde_json::Error);

/// toml's decoding error, carried through.
#[verifier::external_type_specification]
#[verifier::external_body]
pub struct ExTomlError(toml::de::Error);

/// The message of an I/O error (its `Display`). What the message says depends on the
/// operating system; nothing is stated of it.
#[verifier::external_body]
fn io_error_text(e: &std::io::Error) -> String {
    e.to_string()
}

/// The message of a serde_json error (its `Display`); nothing is stated of it.
#[verifier::external_body]
fn json_error_text(e: &serde_json::Error) -> String {
    e.to_string()
}

/// The message of a toml decoding error (its `Display`); nothing is stated of it.
#[verifier::external_body]
fn toml_error_text(e: &toml::de::Error) -> String {
    e.to_string()
}

/// Everything that can go wrong in the assistant.
#[derive(Debug)]
pub enum HummingbirdError {
    Io(std::io::Error),
    Inference(String),
    Context(String),
    Tool(String),
    Config(String),
    Agent(String),
    Serialization(serde_json::Error),
    TomlParse(toml::de::Error),
    Network(String),
    TokenLimitExceeded { requested: usize, limit: usize },
}

/// A result whose error is a `HummingbirdError`.
pub type Result<T> = std::result::Result<T, HummingbirdError>;

/// The prefix of the message of each kind of error.
pub open spec fn message_prefix(e: HummingbirdError) -> Seq<char> {
    match e {
        HummingbirdError::Io(_) => "IO error: "@,
        HummingbirdError::Inference(_) => "Inference error: "@,
        HummingbirdError::Context(_) => "Context error: "@,
        HummingbirdError::Tool(_) => "Tool error: "@,
        HummingbirdError::Config(_) => "Config error: "@,
        HummingbirdError::Agent(_) => "Agent error: "@,
        HummingbirdError::Serialization(_) => "Serialization error: "@,
        HummingbirdError::TomlParse(_) => "TOML parse error: "@,
        HummingbirdError::Network(_) => "Network error: "@,
        HummingbirdError::TokenLimitExceeded { .. } => "Token limit exceeded: requested "@,
    }
}

/// The message of an error whose text is the library's own (all but the three that carry
/// an outside error).
pub open spec fn message_spec(e: HummingbirdError) -> Seq<char> {
    match e {
        HummingbirdError::Inference(m) => "Inference error: "@ + m@,
        HummingbirdError::Context(m) => "Context error: "@ + m@,
        HummingbirdError::Tool(m) => "Tool error: "@ + m@,
        HummingbirdError::Config(m) => "Config error: "@ + m@,
        HummingbirdError::Agent(m) => "Agent error: "@ + m@,
        HummingbirdError::Network(m) => "Network error: "@ + m@,
        HummingbirdError::TokenLimitExceeded { requested, limit } => "Token limit exceeded: requested "@
            + decimal(requested as nat) + ", limit "@ + decimal(limit as nat),
        _ => message_prefix(e),
    }
}

/// Whether the error carries an outside error, whose text comes from its crate.
pub open spec fn wraps_outside_error(e: HummingbirdError) -> bool {
    e is Io || e is Serialization || e is TomlParse
}

impl HummingbirdError {
    /// The error's message (what `Display` shows).
    pub fn to_string(&self) -> (r: String)
        ensures
            !wraps_outside_error(*self) ==> r@ == message_spec(*self),
            wraps_outside_error(*self) ==> r@.len() >= message_prefix(*self).len()
                && r@.subrange(0, message_prefix(*self).len() as int) == message_prefix(*self),
    {
        let (prefix, rest): (&str, String) = match self {
            HummingbirdError::Io(e) => ("IO error: ", io_error_text(e)),
            HummingbirdError::Inference(m) => ("Inference error: ", m.clone()),
            HummingbirdError::Context(m) => ("Context error: ", m.clone()),
            HummingbirdError::Tool(m) => ("Tool error: ", m.clone()),
            HummingbirdError::Config(m) => ("Config error: ", m.clone()),
            HummingbirdError::Agent(m) => ("Agent error: ", m.clone()),
            HummingbirdError::Serialization(e) => ("Serialization error: ", json_error_text(e)),
            HummingbirdError::TomlParse(e) => ("TOML parse error: ", toml_error_text(e)),
            HummingbirdError::Network(m) => ("Network error: ", m.clone()),
            HummingbirdError::TokenLimitExceeded { requested, limit } => {
                let mut s = String::new();
                push_decimal(&mut s, *requested as u64);
                push_str(&mut s, ", limit ");
                push_decimal(&mut s, *limit as u64);
                ("Token limit exceeded: requested ", s)
            },
        };
        proof {
            reveal_strlit("IO error: ");
            reveal_strlit("Inference error: ");
            reveal_strlit("Context error: ");
            reveal_strlit("Tool error: ");
            reveal_strlit("Config error: ");
            reveal_strlit("Agent error: ");
            reveal_strlit("Serialization error: ");
            reveal_strlit("TOML parse error: ");
            reveal_strlit("Network error: ");
            reveal_strlit("Token limit exceeded: requested ");
        }
        let mut r = owned(prefix);
        push_str(&mut r, rest.as_str());
        assert(r@.subrange(0, prefix@.len() as int) =~= prefix@);
        r
    }
}

} // verus!
