//! workhorse: routing prompts across language models, tool invocation
//! through MCP servers, and conversational session state.

pub mod adapters;
pub mod config;
pub mod engine;
pub mod json;
pub mod text;
pub mod tools;
