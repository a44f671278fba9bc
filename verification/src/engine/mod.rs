//! Core types shared by the analyzer, the router, the ranking engine and the
//! session: costs, roles and messages.

pub mod analyzer;
pub mod learning_router;
pub mod ranking;
pub mod ranking_commands;
pub mod router;
pub mod session;

pub use analyzer::{AnalysisError, AnalysisSource, ComplexityTier, TaskType};
pub use ranking::{RankingError, RankingSwitch, Scope};
pub use router::{ModelId, ModelSpec, RoutingError};
pub use session::{Conversation, SessionEvent, SessionOutput, SessionState};

use vstd::prelude::*;

verus! {

/// Monetary cost in USD cents. A newtype, so that costs do not mix with
/// token counts.
#[derive(Debug, Clone, Copy, PartialEq, Eq, PartialOrd, Ord, Hash, Structural)]
pub struct Cost(pub u64);

impl Cost {
    /// The sum of two costs.
    pub fn add(&self, other: Cost) -> (res: Cost)
        requires
            self.0 + other.0 <= u64::MAX,
        ensures
            res.0 == self.0 + other.0,
    {
        Cost(self.0 + other.0)
    }
}

/// The author of a message.
#[derive(Debug, Clone, Copy, PartialEq, Eq, Structural)]
pub enum Role {
    System,
    User,
    Assistant,
    Tool,
}

/// What a message carries. Tool-call arguments and tool results are held
/// as their compact JSON text.
#[derive(Debug)]
pub enum MessageContent {
    Text { text: String },
    ToolCall { call_id: String, tool_name: String, arguments: String },
    ToolResult { call_id: String, result: String },
}

/// A single message in a conversation.
#[derive(Debug)]
pub struct Message {
    pub role: Role,
    pub content: MessageContent,
}

impl Message {
    /// A text message from `role`.
    pub fn text(role: Role, text: String) -> (res: Message)
        ensures
            res.role == role,
            res.content == (MessageContent::Text { text }),
    {
        Message { role, content: MessageContent::Text { text } }
    }
}

impl Clone for MessageContent {
    fn clone(&self) -> (res: Self)
        ensures
            res == *self,
    {
        match self {
            MessageContent::Text { text } => MessageContent::Text { text: text.clone() },
            MessageContent::ToolCall { call_id, tool_name, arguments } => MessageContent::ToolCall {
                call_id: call_id.clone(),
                tool_name: tool_name.clone(),
                arguments: arguments.clone(),
            },
            MessageContent::ToolResult { call_id, result } => MessageContent::ToolResult {
                call_id: call_id.clone(),
                result: result.clone(),
            },
        }
    }
}

impl Clone for Message {
    fn clone(&self) -> (res: Self)
        ensures
            res == *self,
    {
        Message { role: self.role, content: self.content.clone() }
    }
}

/// Clones a list of messages.
pub fn clone_messages(ms: &Vec<Message>) -> (res: Vec<Message>)
    ensures
        res@ == ms@,
{
    let mut res: Vec<Message> = Vec::new();
    let mut i: usize = 0;
    while i < ms.len()
        invariant
            i <= ms.len(),
            res@ == ms@.take(i as int),
        decreases ms.len() - i,
    {
        res.push(ms[i].clone());
        assert(res@ =~= ms@.take(i + 1));
        i += 1;
    }
    assert(ms@.take(ms.len() as int) =~= ms@);
    res
}

} // verus!
