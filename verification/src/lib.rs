//! A client library for chat-completion backends with tool calling.
//!
//! The crate models one round of conversation with a large-language-model
//! backend: a role-tagged message history, the JSON wire shape exchanged with
//! the backend, a registry of named tool definitions, and the state machine
//! that interprets a response, dispatches tool calls in order, and folds the
//! results back into the history.  All of that logic is verified; the network
//! transport itself is left to the caller.

pub mod err;
pub mod json;
pub mod laws;
pub mod function;
pub mod prompt;
pub mod api;
pub mod client;
pub mod tools;
