//! The provider-neutral shape of a model's reply: events, usage, tool calls,
//! capabilities and errors.

pub mod mock;
pub mod openai_compat;
pub mod retry;

pub use mock::MockAdapter;
pub use retry::{RetryError, RetryPolicy};

use vstd::prelude::*;
use crate::engine::Cost;
use crate::text::{concat, decimal};

verus! {

/// A JSON value, as serde_json represents it. The library carries such
/// values through without reading them.
#[verifier::external_type_specification]
#[verifier::external_body]
pub struct ExJsonValue(serde_json::Value);

/// `Clone` of `serde_json::Value` is derived in serde_json: the copy is the
/// same value.
pub assume_specification[ <serde_json::Value as Clone>::clone ](v: &serde_json::Value) -> (res:
    serde_json::Value)
    ensures
        res == *v,
;

/// A tool call requested by a model, in normalized form.
#[derive(Debug)]
pub struct ToolInvocation {
    pub call_id: String,
    pub tool_name: String,
    pub arguments: serde_json::Value,
}

impl Clone for ToolInvocation {
    fn clone(&self) -> (res: Self)
        ensures
            res == *self,
    {
        ToolInvocation {
            call_id: self.call_id.clone(),
            tool_name: self.tool_name.clone(),
            arguments: self.arguments.clone(),
        }
    }
}

/// Token usage and cost of one completion.
#[derive(Debug)]
pub struct Usage {
    pub input_tokens: u32,
    pub output_tokens: u32,
    pub cost: Cost,
}

impl Clone for Usage {
    fn clone(&self) -> (res: Self)
        ensures
            res == *self,
    {
        Usage { input_tokens: self.input_tokens, output_tokens: self.output_tokens, cost: self.cost }
    }
}

/// One event of a model's reply.
#[derive(Debug)]
pub enum ResponseEvent {
    /// A piece of text.
    Chunk(String),
    /// A tool call request.
    ToolCall(ToolInvocation),
    /// The end of the reply, with its usage.
    Done(Usage),
}

impl Clone for ResponseEvent {
    fn clone(&self) -> (res: Self)
        ensures
            res == *self,
    {
        match self {
            ResponseEvent::Chunk(t) => ResponseEvent::Chunk(t.clone()),
            ResponseEvent::ToolCall(i) => ResponseEvent::ToolCall(i.clone()),
            ResponseEvent::Done(u) => ResponseEvent::Done(u.clone()),
        }
    }
}

/// A tool offered to a model.
#[derive(Debug)]
pub struct ToolSpec {
    pub name: String,
    pub description: String,
    pub schema: serde_json::Value,
}

/// The format asked of a reply.
#[derive(Debug, Clone, Copy, PartialEq, Eq, Structural)]
pub enum ResponseFormat {
    Text,
    Json,
}

/// What a model supports.
#[derive(Debug, Clone, Copy, PartialEq, Eq, Structural)]
pub struct ModelCapabilities {
    pub streaming: bool,
    pub tool_calling: bool,
    pub structured_output: bool,
    pub vision: bool,
    pub max_context_tokens: usize,
}

/// Errors of a model call.
#[derive(Debug)]
pub enum LLMError {
    Network(String),
    Auth(String),
    RateLimited { retry_after_ms: u64 },
    Model(String),
    Parse(String),
    BudgetExceeded,
}

impl LLMError {
    /// The human-readable description of the error.
    pub fn message(&self) -> (res: String)
        ensures
            res@ == match self {
                LLMError::Network(s) => "network error: "@ + s@,
                LLMError::Auth(s) => "authentication error: "@ + s@,
                LLMError::RateLimited { retry_after_ms } => "rate limited: retry after "@
                    + crate::text::decimal_text(*retry_after_ms as nat) + "ms"@,
                LLMError::Model(s) => "model error: "@ + s@,
                LLMError::Parse(s) => "response parse error: "@ + s@,
                LLMError::BudgetExceeded => "budget exceeded"@,
            },
    {
        match self {
            LLMError::Network(s) => concat("network error: ", s.as_str()),
            LLMError::Auth(s) => concat("authentication error: ", s.as_str()),
            LLMError::RateLimited { retry_after_ms } => {
                let n = decimal(*retry_after_ms);
                let mut out = concat("rate limited: retry after ", n.as_str());
                out.append("ms");
                out
            },
            LLMError::Model(s) => concat("model error: ", s.as_str()),
            LLMError::Parse(s) => concat("response parse error: ", s.as_str()),
            LLMError::BudgetExceeded => crate::text::owned("budget exceeded"),
        }
    }
}

} // verus!
