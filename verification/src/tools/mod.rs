//! Tool system: tool results and their content, sandbox levels, consent
//! decisions, content parsing and errors.

pub mod base64;
pub mod consent;
pub mod mcp;

pub use consent::{AutoApprove, AutoDeny, ConsentCallback, ConsentDecision, ConsentSandbox};
pub use mcp::McpToolDef;

use vstd::prelude::*;
use crate::text::{concat, owned, str_eq};

verus! {

/// One piece of a tool's output, as MCP types it.
#[derive(Debug)]
pub enum ToolContent {
    Text(String),
    Image { mime_type: String, data: Vec<u8> },
    Resource { uri: String, mime_type: String },
}

/// The data of a piece of tool output.
pub enum ContentView {
    Text(Seq<char>),
    Image { mime_type: Seq<char>, data: Seq<u8> },
    Resource { uri: Seq<char>, mime_type: Seq<char> },
}

impl View for ToolContent {
    type V = ContentView;

    open spec fn view(&self) -> ContentView {
        match *self {
            ToolContent::Text(t) => ContentView::Text(t@),
            ToolContent::Image { mime_type, data } => ContentView::Image {
                mime_type: mime_type@,
                data: data@,
            },
            ToolContent::Resource { uri, mime_type } => ContentView::Resource {
                uri: uri@,
                mime_type: mime_type@,
            },
        }
    }
}

/// Whether two pieces of tool output hold the same data.
pub open spec fn same_content(a: ToolContent, b: ToolContent) -> bool {
    a@ == b@
}

/// Whether two tool results hold the same output.
pub open spec fn same_result(a: ToolResult, b: ToolResult) -> bool {
    &&& a.is_error == b.is_error
    &&& a.content@.len() == b.content@.len()
    &&& forall|i: int| 0 <= i < a.content@.len() ==> same_content(a.content@[i], b.content@[i])
}

impl Clone for ToolContent {
    fn clone(&self) -> (res: Self)
        ensures
            same_content(*self, res),
    {
        match self {
            ToolContent::Text(t) => ToolContent::Text(t.clone()),
            ToolContent::Image { mime_type, data } => ToolContent::Image {
                mime_type: mime_type.clone(),
                data: data.clone(),
            },
            ToolContent::Resource { uri, mime_type } => ToolContent::Resource {
                uri: uri.clone(),
                mime_type: mime_type.clone(),
            },
        }
    }
}

/// The output of one tool execution.
#[derive(Debug)]
pub struct ToolResult {
    pub content: Vec<ToolContent>,
    pub is_error: bool,
}

impl Clone for ToolResult {
    fn clone(&self) -> (res: Self)
        ensures
            same_result(*self, res),
    {
        let mut content: Vec<ToolContent> = Vec::new();
        let mut i: usize = 0;
        while i < self.content.len()
            invariant
                i <= self.content.len(),
                content@.len() == i,
                forall|j: int| 0 <= j < i ==> same_content(self.content@[j], content@[j]),
            decreases self.content.len() - i,
        {
            content.push(self.content[i].clone());
            i += 1;
        }
        ToolResult { content, is_error: self.is_error }
    }
}

/// The isolation a tool runs under, set per MCP server.
#[derive(Debug, Clone, Copy, PartialEq, Eq, Structural)]
pub enum SandboxLevel {
    /// Ask the user before destructive operations (the default).
    Consent,
    /// Inside a Wasm runtime.
    Wasmtime,
    /// Inside a Docker or Podman container.
    Docker,
    /// No sandbox: trusted local tools only.
    NoSandbox,
}

/// The sandbox level a configuration string names; anything but
/// "wasmtime", "docker" and "none" means consent.
pub open spec fn spec_sandbox_level(s: Seq<char>) -> SandboxLevel {
    if s == "wasmtime"@ {
        SandboxLevel::Wasmtime
    } else if s == "docker"@ {
        SandboxLevel::Docker
    } else if s == "none"@ {
        SandboxLevel::NoSandbox
    } else {
        SandboxLevel::Consent
    }
}

impl std::str::FromStr for SandboxLevel {
    type Err = ();

    fn from_str(s: &str) -> (res: Result<Self, Self::Err>)
        ensures
            res == Ok::<SandboxLevel, ()>(spec_sandbox_level(s@)),
    {
        if str_eq(s, "wasmtime") {
            Ok(SandboxLevel::Wasmtime)
        } else if str_eq(s, "docker") {
            Ok(SandboxLevel::Docker)
        } else if str_eq(s, "none") {
            Ok(SandboxLevel::NoSandbox)
        } else {
            Ok(SandboxLevel::Consent)
        }
    }
}

/// Whether the implementation of a sandbox level is part of this build:
/// consent and no sandbox always are; the Wasm and container backends are
/// not built in.
pub fn sandbox_available(level: SandboxLevel) -> (res: bool)
    ensures
        res == (level == SandboxLevel::Consent || level == SandboxLevel::NoSandbox),
{
    match level {
        SandboxLevel::Consent | SandboxLevel::NoSandbox => true,
        SandboxLevel::Wasmtime => false,
        SandboxLevel::Docker => false,
    }
}

/// Errors of tools.
#[derive(Debug)]
pub enum ToolError {
    NotFound(String),
    Execution(String),
    PermissionDenied(String),
    Sandbox(String),
    Cleanup(String),
    InvalidArgs(String),
}

/// The description of a tool error.
pub open spec fn tool_error_text(e: ToolError) -> Seq<char> {
    match e {
        ToolError::NotFound(s) => "tool not found: "@ + s@,
        ToolError::Execution(s) => "execution error: "@ + s@,
        ToolError::PermissionDenied(s) => "permission denied: "@ + s@,
        ToolError::Sandbox(s) => "sandbox error: "@ + s@,
        ToolError::Cleanup(s) => "cleanup error: "@ + s@,
        ToolError::InvalidArgs(s) => "invalid arguments: "@ + s@,
    }
}

impl ToolError {
    /// The human-readable description of the error.
    pub fn message(&self) -> (res: String)
        ensures
            res@ == tool_error_text(*self),
    {
        match self {
            ToolError::NotFound(s) => concat("tool not found: ", s.as_str()),
            ToolError::Execution(s) => concat("execution error: ", s.as_str()),
            ToolError::PermissionDenied(s) => concat("permission denied: ", s.as_str()),
            ToolError::Sandbox(s) => concat("sandbox error: ", s.as_str()),
            ToolError::Cleanup(s) => concat("cleanup error: ", s.as_str()),
            ToolError::InvalidArgs(s) => concat("invalid arguments: ", s.as_str()),
        }
    }
}

/// Errors of the MCP client.
#[derive(Debug)]
pub enum McpError {
    Spawn(String),
    JsonRpc(String),
    Protocol(String),
    ServerError(String),
    Io(String),
}

/// The description of an MCP error.
pub open spec fn mcp_error_text(e: McpError) -> Seq<char> {
    match e {
        McpError::Spawn(s) => "failed to spawn MCP server: "@ + s@,
        McpError::JsonRpc(s) => "JSON-RPC error: "@ + s@,
        McpError::Protocol(s) => "protocol error: "@ + s@,
        McpError::ServerError(s) => "server returned error: "@ + s@,
        McpError::Io(s) => "IO error: "@ + s@,
    }
}

impl McpError {
    /// The human-readable description of the error.
    pub fn message(&self) -> (res: String)
        ensures
            res@ == mcp_error_text(*self),
    {
        match self {
            McpError::Spawn(s) => concat("failed to spawn MCP server: ", s.as_str()),
            McpError::JsonRpc(s) => concat("JSON-RPC error: ", s.as_str()),
            McpError::Protocol(s) => concat("protocol error: ", s.as_str()),
            McpError::ServerError(s) => concat("server returned error: ", s.as_str()),
            McpError::Io(s) => concat("IO error: ", s.as_str()),
        }
    }
}

impl ToolError {
    /// The tool error that reports an MCP failure: an execution error with
    /// the MCP error's description.
    pub fn from_mcp(e: McpError) -> (res: ToolError)
        ensures
            res matches ToolError::Execution(s) && s@ == mcp_error_text(e),
    {
        ToolError::Execution(e.message())
    }
}

/// Where a registry finds the tool called `name`, given its tools' names in
/// order: the first tool with that name, or none.
pub fn find_tool(names: &Vec<String>, name: &str) -> (res: Option<usize>)
    ensures
        match res {
            Some(i) => i < names.len() && names@[i as int]@ == name@ && forall|k: int|
                0 <= k < i ==> (#[trigger] names@[k])@ != name@,
            None => forall|k: int| 0 <= k < names.len() ==> (#[trigger] names@[k])@ != name@,
        },
{
    let mut i: usize = 0;
    while i < names.len()
        invariant
            i <= names.len(),
            forall|k: int| 0 <= k < i ==> (#[trigger] names@[k])@ != name@,
        decreases names.len() - i,
    {
        if str_eq(names[i].as_str(), name) {
            return Some(i);
        }
        i += 1;
    }
    None
}

} // verus!
