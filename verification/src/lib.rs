//! Verified core of a group-chat bot that answers through an OpenAI compatible
//! backend: text handling, configuration defaults, tool-request safety rules and
//! the retry, fallback and cooldown decisions of the chat client.
use vstd::prelude::*;

pub mod chat_client;
pub mod config;
pub mod defaults;
pub mod error;
pub mod http;
pub mod napcat;
pub mod openai;
pub mod paths;
pub mod text;
pub mod tools;
pub mod util;

verus! {

} // verus!
