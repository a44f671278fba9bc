//! The reading of MCP replies: tool listings and the definitions learned
//! from them, tool-call results and their content blocks, and JSON-RPC
//! errors. The fields the logic reads are taken from the JSON replies into
//! plain values first.

use vstd::prelude::*;
use crate::json::{
    bool_of, empty_json_object, items_of, json_array, json_bool, json_member, json_object_of,
    json_string, json_value_of, member, member_string, member_text, opt_view, parse_json, string_of,
};
use crate::text::{concat, owned, trim, trimmed};
use crate::tools::{ContentView, McpError, ToolContent, ToolResult};
use crate::text::str_eq;
use vstd::hash_map::StringHashMap;
use crate::tools::base64::{base64_decode, spec_base64_decode};

verus! {

/// The fields of one content block of a tools/call reply: "type", "text",
/// "mimeType", "data" and "uri", each when present as a string.
#[derive(Debug)]
pub struct ContentBlock {
    pub kind: Option<String>,
    pub text: Option<String>,
    pub mime_type: Option<String>,
    pub data: Option<String>,
    pub uri: Option<String>,
}

/// The type of a block: "text" when it names none.
pub open spec fn block_kind(b: ContentBlock) -> Seq<char> {
    match b.kind {
        Some(k) => k@,
        None => "text"@,
    }
}

/// What a block contributes: text (empty when missing); an image when its
/// MIME type and data are present and the data decodes; a resource when
/// its URI and MIME type are present; nothing otherwise.
pub open spec fn block_content(b: ContentBlock) -> Option<ContentView> {
    let k = block_kind(b);
    if k == "text"@ {
        Some(
            ContentView::Text(
                match b.text {
                    Some(t) => t@,
                    None => Seq::empty(),
                },
            ),
        )
    } else if k == "image"@ {
        match (b.mime_type, b.data) {
            (Some(m), Some(d)) => match spec_base64_decode(d@) {
                Some(bytes) => Some(ContentView::Image { mime_type: m@, data: bytes }),
                None => None,
            },
            _ => None,
        }
    } else if k == "resource"@ {
        match (b.uri, b.mime_type) {
            (Some(u), Some(m)) => Some(ContentView::Resource { uri: u@, mime_type: m@ }),
            _ => None,
        }
    } else {
        None
    }
}

/// The content of a list of blocks, in order.
pub open spec fn contents_of(blocks: Seq<ContentBlock>) -> Seq<ContentView>
    decreases blocks.len(),
{
    if blocks.len() == 0 {
        Seq::empty()
    } else {
        let prev = contents_of(blocks.drop_last());
        match block_content(blocks.last()) {
            Some(c) => prev.push(c),
            None => prev,
        }
    }
}

/// The data of a list of tool output pieces.
pub open spec fn content_views(v: Seq<ToolContent>) -> Seq<ContentView> {
    v.map_values(|c: ToolContent| c@)
}

fn block_to_content(b: &ContentBlock) -> (res: Option<ToolContent>)
    ensures
        match res {
            Some(c) => block_content(*b) == Some(c@),
            None => block_content(*b) is None,
        },
{
    let is_text = match &b.kind {
        Some(k) => str_eq(k.as_str(), "text"),
        None => true,
    };
    proof {
        reveal_strlit("text");
        reveal_strlit("image");
        reveal_strlit("resource");
        assert("text"@[0] != "image"@[0] && "text"@[0] != "resource"@[0] && "image"@[0]
            != "resource"@[0]);
    }
    if is_text {
        let t = match &b.text {
            Some(t) => t.clone(),
            None => String::new(),
        };
        return Some(ToolContent::Text(t));
    }
    let kind = match &b.kind {
        Some(k) => k,
        None => return None,
    };
    if str_eq(kind.as_str(), "image") {
        match (&b.mime_type, &b.data) {
            (Some(m), Some(d)) => match base64_decode(d.as_str()) {
                Ok(bytes) => Some(ToolContent::Image { mime_type: m.clone(), data: bytes }),
                Err(_) => None,
            },
            _ => None,
        }
    } else if str_eq(kind.as_str(), "resource") {
        match (&b.uri, &b.mime_type) {
            (Some(u), Some(m)) => Some(ToolContent::Resource { uri: u.clone(), mime_type: m.clone() }),
            _ => None,
        }
    } else {
        None
    }
}

/// Reads the "content" of a tools/call reply: a protocol error when it is
/// missing (or not an array); otherwise the content of its blocks.
pub fn parse_content(content: &Option<Vec<ContentBlock>>) -> (res: Result<Vec<ToolContent>, McpError>)
    ensures
        match content {
            None => res matches Err(McpError::Protocol(m)) && m@
                == "missing 'content' in response"@,
            Some(blocks) => res matches Ok(v) && content_views(v@) == contents_of(blocks@),
        },
{
    let blocks = match content {
        None => return Err(McpError::Protocol(owned("missing 'content' in response"))),
        Some(b) => b,
    };
    let mut out: Vec<ToolContent> = Vec::new();
    let mut i: usize = 0;
    while i < blocks.len()
        invariant
            i <= blocks.len(),
            content_views(out@) == contents_of(blocks@.take(i as int)),
        decreases blocks.len() - i,
    {
        assert(blocks@.take(i + 1).drop_last() =~= blocks@.take(i as int));
        let ghost before = out@;
        match block_to_content(&blocks[i]) {
            Some(c) => {
                out.push(c);
                assert(content_views(out@) =~= content_views(before).push(out@.last()@));
            },
            None => {},
        }
        i += 1;
    }
    assert(blocks@.take(blocks.len() as int) =~= blocks@);
    Ok(out)
}

/// Reads a tools/call reply: its content, flagged as an error exactly when
/// its "isError" is `true`.
pub fn tool_call_result(is_error: Option<bool>, content: &Option<Vec<ContentBlock>>) -> (res: Result<
    ToolResult,
    McpError,
>)
    ensures
        match content {
            None => res matches Err(McpError::Protocol(m)) && m@
                == "missing 'content' in response"@,
            Some(blocks) => res matches Ok(r) && content_views(r.content@) == contents_of(blocks@)
                && r.is_error == (is_error == Some(true)),
        },
{
    let parsed = parse_content(content)?;
    let flagged = match is_error {
        Some(true) => true,
        _ => false,
    };
    Ok(ToolResult { content: parsed, is_error: flagged })
}

/// A tool definition from tools/list.
#[derive(Debug)]
pub struct McpToolDef {
    pub name: String,
    pub description: String,
    pub schema: serde_json::Value,
}

impl Clone for McpToolDef {
    fn clone(&self) -> (res: Self)
        ensures
            res == *self,
    {
        McpToolDef {
            name: self.name.clone(),
            description: self.description.clone(),
            schema: self.schema.clone(),
        }
    }
}

/// What a tool definition says: its name, description and schema.
pub open spec fn def_view(d: McpToolDef) -> (Seq<char>, Seq<char>, serde_json::Value) {
    (d.name@, d.description@, d.schema)
}

/// The fields of one tool of a tools/list reply: "name" and "description"
/// when present as strings, and "inputSchema" when present.
#[derive(Debug)]
pub struct ListedTool {
    pub name: Option<String>,
    pub description: Option<String>,
    pub input_schema: Option<serde_json::Value>,
}

/// The "tools" field of a tools/list reply.
#[derive(Debug)]
pub enum ToolsField {
    Missing,
    NotArray,
    Array(Vec<ListedTool>),
}

/// Whether `b` holds the fields of the content block `j`: its "type",
/// "text", "mimeType", "data" and "uri", each when a string.
pub open spec fn is_block_of(b: ContentBlock, j: serde_json::Value) -> bool {
    &&& opt_view(b.kind) == member_text(j, "type"@)
    &&& opt_view(b.text) == member_text(j, "text"@)
    &&& opt_view(b.mime_type) == member_text(j, "mimeType"@)
    &&& opt_view(b.data) == member_text(j, "data"@)
    &&& opt_view(b.uri) == member_text(j, "uri"@)
}

/// The fields of one content block of a tools/call reply.
pub fn content_block(j: &serde_json::Value) -> (res: ContentBlock)
    ensures
        is_block_of(res, *j),
{
    ContentBlock {
        kind: member_string(j, "type"),
        text: member_string(j, "text"),
        mime_type: member_string(j, "mimeType"),
        data: member_string(j, "data"),
        uri: member_string(j, "uri"),
    }
}

/// The content blocks of a tools/call reply, one by one: nothing when its
/// "content" is missing or not an array.
pub fn content_blocks(response: &serde_json::Value) -> (res: Option<Vec<ContentBlock>>)
    ensures
        match (res, json_member(*response, "content"@)) {
            (Some(bs), Some(a)) => json_array(a) matches Some(items) && bs@.len() == items.len()
                && forall|i: int| 0 <= i < items.len() ==> is_block_of(#[trigger] bs@[i], items[i]),
            (None, Some(a)) => json_array(a) is None,
            (None, None) => true,
            (Some(_), None) => false,
        },
{
    let items = match member(response, "content") {
        Some(a) => match items_of(&a) {
            Some(items) => items,
            None => return None,
        },
        None => return None,
    };
    let mut bs: Vec<ContentBlock> = Vec::new();
    let mut i: usize = 0;
    while i < items.len()
        invariant
            i <= items.len(),
            bs@.len() == i,
            forall|k: int| 0 <= k < i ==> is_block_of(#[trigger] bs@[k], items@[k]),
        decreases items.len() - i,
    {
        bs.push(content_block(&items[i]));
        i = i + 1;
    }
    Some(bs)
}

/// The "isError" flag of a tools/call reply, when it is a boolean.
pub fn error_flag(response: &serde_json::Value) -> (res: Option<bool>)
    ensures
        res == match json_member(*response, "isError"@) {
            Some(f) => json_bool(f),
            None => None,
        },
{
    match member(response, "isError") {
        Some(f) => bool_of(&f),
        None => None,
    }
}

/// Reads a tools/call reply: its "isError" flag and its content blocks
/// (see `error_flag`, `content_blocks` and `tool_call_result`).
pub fn call_reply(response: &serde_json::Value) -> (res: Result<ToolResult, McpError>)
    ensures
        match json_member(*response, "content"@) {
            Some(a) => match json_array(a) {
                Some(items) => res matches Ok(r) && r.is_error == (match json_member(
                    *response,
                    "isError"@,
                ) {
                    Some(f) => json_bool(f),
                    None => None,
                } == Some(true)) && exists|bs: Seq<ContentBlock>|
                    bs.len() == items.len() && (forall|i: int|
                        0 <= i < items.len() ==> is_block_of(#[trigger] bs[i], items[i]))
                        && content_views(r.content@) == contents_of(bs),
                None => res matches Err(McpError::Protocol(m)) && m@
                    == "missing 'content' in response"@,
            },
            None => res matches Err(McpError::Protocol(m)) && m@ == "missing 'content' in response"@,
        },
{
    let blocks = content_blocks(response);
    tool_call_result(error_flag(response), &blocks)
}

/// Whether `t` holds the fields of the listed tool `j`: its "name" and
/// "description", each when a string, and its "inputSchema".
pub open spec fn is_listed_tool_of(t: ListedTool, j: serde_json::Value) -> bool {
    &&& opt_view(t.name) == member_text(j, "name"@)
    &&& opt_view(t.description) == member_text(j, "description"@)
    &&& t.input_schema == json_member(j, "inputSchema"@)
}

/// The "tools" field of a tools/list reply: missing, not an array, or the
/// fields of each listed tool, one by one.
pub fn listed_tools(response: &serde_json::Value) -> (res: ToolsField)
    ensures
        match json_member(*response, "tools"@) {
            None => res is Missing,
            Some(a) => match json_array(a) {
                None => res is NotArray,
                Some(items) => res matches ToolsField::Array(ts) && ts@.len() == items.len()
                    && forall|i: int|
                    0 <= i < items.len() ==> is_listed_tool_of(#[trigger] ts@[i], items[i]),
            },
        },
{
    let items = match member(response, "tools") {
        None => return ToolsField::Missing,
        Some(a) => match items_of(&a) {
            None => return ToolsField::NotArray,
            Some(items) => items,
        },
    };
    let mut ts: Vec<ListedTool> = Vec::new();
    let mut i: usize = 0;
    while i < items.len()
        invariant
            i <= items.len(),
            ts@.len() == i,
            forall|k: int| 0 <= k < i ==> is_listed_tool_of(#[trigger] ts@[k], items@[k]),
        decreases items.len() - i,
    {
        let j = &items[i];
        ts.push(
            ListedTool {
                name: member_string(j, "name"),
                description: member_string(j, "description"),
                input_schema: member(j, "inputSchema"),
            },
        );
        i = i + 1;
    }
    ToolsField::Array(ts)
}

/// The error of a JSON-RPC reply whose "error" field is present: a server
/// error with its "message", or "unknown error" when it has none. `error`
/// is `None` when the reply has no error field.
pub fn rpc_error(error: &Option<Option<String>>) -> (res: Option<McpError>)
    ensures
        match error {
            None => res is None,
            Some(None) => res matches Some(McpError::ServerError(m)) && m@ == "unknown error"@,
            Some(Some(msg)) => res matches Some(McpError::ServerError(m)) && m@ == msg@,
        },
{
    match error {
        None => None,
        Some(None) => Some(McpError::ServerError(owned("unknown error"))),
        Some(Some(msg)) => Some(McpError::ServerError(msg.clone())),
    }
}

/// The "error" member of a JSON-RPC reply, as the client reads it: nothing
/// when there is none, and else its "message" when that is a string.
pub open spec fn rpc_error_member(reply: serde_json::Value) -> Option<Option<Seq<char>>> {
    match json_member(reply, "error"@) {
        None => None,
        Some(e) => Some(
            match json_member(e, "message"@) {
                Some(m) => json_string(m),
                None => None,
            },
        ),
    }
}

/// The view of an optional error message.
pub open spec fn error_member_view(e: Option<Option<String>>) -> Option<Option<Seq<char>>> {
    match e {
        None => None,
        Some(None) => Some(None),
        Some(Some(m)) => Some(Some(m@)),
    }
}

/// What a JSON-RPC reply answers, from its "result" member and its "error"
/// member's message: the server's error when there is an error member (its
/// message, or "unknown error"); otherwise the result, or `{}` when there
/// is none.
pub fn reply_outcome(result: Option<serde_json::Value>, error: &Option<Option<String>>) -> (res:
    Result<serde_json::Value, McpError>)
    ensures
        match error {
            None => res == Ok::<serde_json::Value, McpError>(
                match result {
                    Some(v) => v,
                    None => json_object_of(Seq::empty()),
                },
            ),
            Some(None) => res matches Err(McpError::ServerError(m)) && m@ == "unknown error"@,
            Some(Some(msg)) => res matches Err(McpError::ServerError(m)) && m@ == msg@,
        },
{
    match rpc_error(error) {
        Some(err) => Err(err),
        None => match result {
            Some(v) => Ok(v),
            None => Ok(empty_json_object()),
        },
    }
}

/// What a JSON-RPC reply line gives, once trimmed: a JSON-RPC error when it
/// is not JSON; otherwise what its "result" and "error" members answer (see
/// `reply_outcome`).
pub fn rpc_reply(line: &str) -> (res: Result<serde_json::Value, McpError>)
    ensures
        match json_value_of(trim(line@)) {
            None => res matches Err(McpError::JsonRpc(m)) && exists|e: Seq<char>|
                m@ == "failed to parse response: "@ + e,
            Some(reply) => match rpc_error_member(reply) {
                None => res == Ok::<serde_json::Value, McpError>(
                    match json_member(reply, "result"@) {
                        Some(v) => v,
                        None => json_object_of(Seq::empty()),
                    },
                ),
                Some(None) => res matches Err(McpError::ServerError(m)) && m@ == "unknown error"@,
                Some(Some(msg)) => res matches Err(McpError::ServerError(m)) && m@ == msg,
            },
        },
{
    let t = trimmed(line);
    match parse_json(t.as_str()) {
        Err(e) => {
            let m = concat("failed to parse response: ", e.as_str());
            assert(m@ == "failed to parse response: "@ + e@);
            Err(McpError::JsonRpc(m))
        },
        Ok(reply) => {
            let error = match member(&reply, "error") {
                None => None,
                Some(e) => Some(
                    match member(&e, "message") {
                        Some(m) => string_of(&m),
                        None => None,
                    },
                ),
            };
            assert(error_member_view(error) == rpc_error_member(reply));
            reply_outcome(member(&reply, "result"), &error)
        },
    }
}

/// The definition a listed tool gives: its name, its description (empty
/// when it has none) and its schema (`{}` when it has none).
pub open spec fn listed_def(t: ListedTool) -> (Seq<char>, Seq<char>, serde_json::Value) {
    (
        match t.name {
            Some(n) => n@,
            None => Seq::empty(),
        },
        match t.description {
            Some(d) => d@,
            None => Seq::empty(),
        },
        match t.input_schema {
            Some(v) => v,
            None => json_object_of(Seq::empty()),
        },
    )
}

/// The definitions known after learning the listed tools `ts` in order,
/// from `known`: each under its name, a later one replacing an earlier one
/// of the same name.
pub open spec fn learned(
    known: Map<Seq<char>, (Seq<char>, Seq<char>, serde_json::Value)>,
    ts: Seq<ListedTool>,
) -> Map<Seq<char>, (Seq<char>, Seq<char>, serde_json::Value)>
    decreases ts.len(),
{
    if ts.len() == 0 {
        known
    } else {
        learned(known, ts.drop_last()).insert(listed_def(ts.last()).0, listed_def(ts.last()))
    }
}

/// Whether every listed tool has a name, no two the same.
pub open spec fn distinctly_named(ts: Seq<ListedTool>) -> bool {
    &&& forall|i: int| 0 <= i < ts.len() ==> (#[trigger] ts[i]).name is Some
    &&& forall|i: int, j: int|
        0 <= i < j < ts.len() ==> listed_def(#[trigger] ts[i]).0 != listed_def(#[trigger] ts[j]).0
}

/// The definition of a listed tool: none when it has no name.
fn def_of(t: &ListedTool) -> (res: Option<McpToolDef>)
    ensures
        match res {
            Some(d) => t.name is Some && def_view(d) == listed_def(*t),
            None => t.name is None,
        },
{
    let name = match &t.name {
        Some(n) => n.clone(),
        None => return None,
    };
    let description = match &t.description {
        Some(d) => d.clone(),
        None => String::new(),
    };
    let schema = match &t.input_schema {
        Some(v) => v.clone(),
        None => empty_json_object(),
    };
    Some(McpToolDef { name, description, schema })
}

/// The tool definitions a client has learned from tools/list, by name.
pub struct ToolDefCache {
    defs: StringHashMap<McpToolDef>,
}

impl View for ToolDefCache {
    type V = Map<Seq<char>, (Seq<char>, Seq<char>, serde_json::Value)>;

    closed spec fn view(&self) -> Self::V {
        self.defs@.map_values(|d: McpToolDef| def_view(d))
    }
}

impl ToolDefCache {
    /// No definition yet.
    pub fn new() -> (res: ToolDefCache)
        ensures
            res@ == Map::<Seq<char>, (Seq<char>, Seq<char>, serde_json::Value)>::empty(),
    {
        let res = ToolDefCache { defs: StringHashMap::new() };
        assert(res@ =~= Map::<Seq<char>, (Seq<char>, Seq<char>, serde_json::Value)>::empty());
        res
    }

    /// The definition of the tool called `name`, when one was learned.
    pub fn get(&self, name: &str) -> (res: Option<McpToolDef>)
        ensures
            match res {
                Some(d) => self@.contains_key(name@) && def_view(d) == self@[name@],
                None => !self@.contains_key(name@),
            },
    {
        match self.defs.get(name) {
            Some(d) => Some(d.clone()),
            None => None,
        }
    }

    /// Learns a tools/list reply's tools, one at a time: a protocol error
    /// when "tools" is missing (nothing learned); no tools when "tools" is
    /// not an array; otherwise one definition per tool, in order, with an
    /// empty description and an empty schema object where the tool gives
    /// none, each learned under its name, up to a tool without a name,
    /// which is a protocol error (the tools before it stay learned).
    pub fn learn(&mut self, field: &ToolsField) -> (res: Result<Vec<McpToolDef>, McpError>)
        ensures
            match field {
                ToolsField::Missing => res matches Err(McpError::Protocol(m)) && m@
                    == "missing 'tools' in response"@ && final(self)@ == old(self)@,
                ToolsField::NotArray => res matches Ok(v) && v@.len() == 0 && final(self)@ == old(
                    self,
                )@,
                ToolsField::Array(ts) => if exists|i: int|
                    0 <= i < ts@.len() && (#[trigger] ts@[i]).name is None {
                    res matches Err(McpError::Protocol(m)) && m@ == "tool missing 'name'"@
                        && exists|j: int|
                        0 <= j < ts@.len() && (#[trigger] ts@[j]).name is None && (forall|k: int|
                            0 <= k < j ==> (#[trigger] ts@[k]).name is Some) && final(self)@
                            == learned(old(self)@, ts@.take(j))
                } else {
                    res matches Ok(v) && v@.len() == ts@.len() && (forall|i: int|
                        0 <= i < v@.len() ==> def_view(#[trigger] v@[i]) == listed_def(ts@[i]))
                        && final(self)@ == learned(old(self)@, ts@)
                },
            },
    {
        let ts = match field {
            ToolsField::Missing => return Err(
                McpError::Protocol(owned("missing 'tools' in response")),
            ),
            ToolsField::NotArray => return Ok(Vec::new()),
            ToolsField::Array(ts) => ts,
        };
        let mut out: Vec<McpToolDef> = Vec::new();
        let mut i: usize = 0;
        while i < ts.len()
            invariant
                *field == ToolsField::Array(*ts),
                i <= ts.len(),
                out@.len() == i,
                forall|k: int| 0 <= k < i ==> (#[trigger] ts@[k]).name is Some,
                forall|k: int| 0 <= k < i ==> def_view(#[trigger] out@[k]) == listed_def(ts@[k]),
                self@ == learned(old(self)@, ts@.take(i as int)),
            decreases ts.len() - i,
        {
            match def_of(&ts[i]) {
                None => {
                    return Err(McpError::Protocol(owned("tool missing 'name'")));
                },
                Some(d) => {
                    let ghost before = self.defs@;
                    let key = d.name.clone();
                    self.defs.insert(key, d.clone());
                    proof {
                        assert(ts@.take(i + 1).drop_last() =~= ts@.take(i as int));
                        assert(self.defs@ == before.insert(d.name@, d));
                        assert(self@ =~= learned(old(self)@, ts@.take(i + 1)));
                    }
                    out.push(d);
                },
            }
            i += 1;
        }
        assert(ts@.take(ts.len() as int) =~= ts@);
        Ok(out)
    }
}

/// Learning a tools/list of distinctly named tools makes each tool's
/// definition the one known under its name.
pub proof fn law_listed_tools_are_found(
    known: Map<Seq<char>, (Seq<char>, Seq<char>, serde_json::Value)>,
    ts: Seq<ListedTool>,
)
    requires
        distinctly_named(ts),
    ensures
        forall|i: int|
            0 <= i < ts.len() ==> {
                &&& #[trigger] learned(known, ts).contains_key(listed_def(ts[i]).0)
                &&& learned(known, ts)[listed_def(ts[i]).0] == listed_def(ts[i])
            },
    decreases ts.len(),
{
    if ts.len() > 0 {
        let prev = ts.drop_last();
        assert(distinctly_named(prev)) by {
            assert forall|i: int, j: int| 0 <= i < j < prev.len() implies listed_def(
                #[trigger] prev[i],
            ).0 != listed_def(#[trigger] prev[j]).0 by {
                assert(prev[i] == ts[i] && prev[j] == ts[j]);
            }
        }
        law_listed_tools_are_found(known, prev);
        let last = ts[ts.len() - 1];
        assert(learned(known, ts) == learned(known, prev).insert(listed_def(last).0, listed_def(
            last,
        )));
        assert forall|i: int| 0 <= i < ts.len() implies {
            &&& #[trigger] learned(known, ts).contains_key(listed_def(ts[i]).0)
            &&& learned(known, ts)[listed_def(ts[i]).0] == listed_def(ts[i])
        } by {
            if i < ts.len() - 1 {
                assert(prev[i] == ts[i]);
                assert(learned(known, prev).contains_key(listed_def(prev[i]).0));
                assert(listed_def(ts[i]).0 != listed_def(ts[ts.len() - 1]).0);
            }
        }
    }
}

} // verus!
