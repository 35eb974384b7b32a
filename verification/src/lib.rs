//! Verified core of the knowledge-graph AI agent service: document chunking,
//! context-window management, JSON schema transformations, graph-data
//! extraction, prompt construction, tool-call rules and the agent's decisions.
use vstd::prelude::*;

pub mod text;
pub mod agent;
pub mod chat;
pub mod chunking;
pub mod creation;
pub mod data_service;
pub mod errors;
pub mod generation;
pub mod graph;
pub mod ids;
pub mod json;
pub mod messages;
pub mod order;
pub mod prompt;
pub mod retry;
pub mod schema_service;
pub mod stream;
pub mod tool_executor;
pub mod tools;

verus! {

} // verus!
