//! A terminal coding assistant's core: conversation history, the agent's decision loop,
//! tool-call parsing, edit planning and diffs, context selection, tool policies and
//! request budgeting.
use vstd::prelude::*;

pub mod text;
pub mod json;
pub mod error;
pub mod history;
pub mod inference;
pub mod tools;
pub mod agent;
pub mod forge;
pub mod patterns;
pub mod context;
pub mod config;
pub mod session;
pub mod providers;
pub mod tui;
pub mod cli;
pub mod repl;
pub mod runner;

verus! {

} // verus!
