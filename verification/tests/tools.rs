use workhorse::tools::mcp::{call_reply, content_blocks, error_flag, listed_tools, ToolDefCache};
use workhorse::tools::find_tool;
use workhorse::tools::base64::{b64_lookup, base64_decode};
use workhorse::tools::consent::{consent_verdict, execution_gate};
use workhorse::tools::mcp::{parse_content, reply_outcome, rpc_error, rpc_reply, tool_call_result, ContentBlock, ListedTool, ToolsField};
use workhorse::tools::{
    AutoApprove, AutoDeny, ConsentCallback, ConsentDecision, ConsentSandbox, McpError, ToolContent,
    ToolError,
};

#[test]
fn base64_decodes_standard_text() {
    assert_eq!(base64_decode("aGVsbG8=").unwrap(), b"hello".to_vec());
    assert_eq!(base64_decode("QUI=").unwrap(), b"AB".to_vec());
    assert_eq!(base64_decode("QQ==").unwrap(), b"A".to_vec());
    assert_eq!(base64_decode("").unwrap(), Vec::<u8>::new());
    assert_eq!(base64_decode("+/+/").unwrap(), vec![0xfb, 0xff, 0xbf]);
}

#[test]
fn base64_tolerates_whitespace_padding_and_line_feeds() {
    assert_eq!(base64_decode("  aGk=\n").unwrap(), b"hi".to_vec());
    assert_eq!(base64_decode("aG\nk=").unwrap(), b"hi".to_vec());
    assert_eq!(base64_decode("Q").unwrap(), vec![64]);
}

#[test]
fn base64_rejects_bytes_outside_the_alphabet() {
    assert!(base64_decode("a b").is_err());
    assert!(base64_decode("aGk*").is_err());
    assert!(base64_decode("é").is_err());
}

#[test]
fn base64_alphabet() {
    assert_eq!(b64_lookup(b'A'), Some(0));
    assert_eq!(b64_lookup(b'z'), Some(51));
    assert_eq!(b64_lookup(b'0'), Some(52));
    assert_eq!(b64_lookup(b'+'), Some(62));
    assert_eq!(b64_lookup(b'/'), Some(63));
    assert_eq!(b64_lookup(b'='), None);
}

fn block(kind: Option<&str>) -> ContentBlock {
    ContentBlock { kind: kind.map(|s| s.to_string()), text: None, mime_type: None, data: None, uri: None }
}

#[test]
fn content_blocks_become_tool_content() {
    let mut text = block(Some("text"));
    text.text = Some("hello".to_string());
    let mut image = block(Some("image"));
    image.mime_type = Some("image/png".to_string());
    image.data = Some("aGk=".to_string());
    let mut resource = block(Some("resource"));
    resource.uri = Some("file:///tmp/test".to_string());
    resource.mime_type = Some("text/plain".to_string());
    let untyped = block(None);
    let mut bad_image = block(Some("image"));
    bad_image.mime_type = Some("image/png".to_string());
    bad_image.data = Some("***".to_string());
    let other = block(Some("audio"));
    let out = parse_content(&Some(vec![text, image, resource, untyped, bad_image, other])).unwrap();
    assert_eq!(out.len(), 4);
    assert!(matches!(&out[0], ToolContent::Text(t) if t == "hello"));
    assert!(matches!(&out[1], ToolContent::Image { mime_type, data } if mime_type == "image/png" && data == b"hi"));
    assert!(matches!(&out[2], ToolContent::Resource { uri, mime_type } if uri == "file:///tmp/test" && mime_type == "text/plain"));
    assert!(matches!(&out[3], ToolContent::Text(t) if t.is_empty()));
}

#[test]
fn missing_content_is_a_protocol_error() {
    match parse_content(&None) {
        Err(McpError::Protocol(m)) => assert_eq!(m, "missing 'content' in response"),
        other => panic!("unexpected {:?}", other),
    }
}

#[test]
fn tool_call_result_flags_errors() {
    let mut text = block(None);
    text.text = Some("boom".to_string());
    let r = tool_call_result(Some(true), &Some(vec![text])).unwrap();
    assert!(r.is_error);
    assert_eq!(r.content.len(), 1);
    let r = tool_call_result(None, &Some(vec![])).unwrap();
    assert!(!r.is_error);
    let r = tool_call_result(Some(false), &Some(vec![])).unwrap();
    assert!(!r.is_error);
    assert!(tool_call_result(Some(true), &None).is_err());
}

#[test]
fn tool_listing_is_read() {
    let listed = ToolsField::Array(vec![
        ListedTool {
            name: Some("echo".to_string()),
            description: Some("Echoes".to_string()),
            input_schema: Some(serde_json::Value::Bool(true)),
        },
        ListedTool { name: Some("bare".to_string()), description: None, input_schema: None },
    ]);
    let defs = ToolDefCache::new().learn(&listed).unwrap();
    assert_eq!(defs.len(), 2);
    assert_eq!(defs[0].name, "echo");
    assert_eq!(defs[0].description, "Echoes");
    assert_eq!(defs[0].schema, serde_json::Value::Bool(true));
    assert_eq!(defs[1].description, "");
    assert_eq!(defs[1].schema, serde_json::Value::Object(serde_json::Map::new()));
    assert!(ToolDefCache::new().learn(&ToolsField::NotArray).unwrap().is_empty());
    match ToolDefCache::new().learn(&ToolsField::Missing) {
        Err(McpError::Protocol(m)) => assert_eq!(m, "missing 'tools' in response"),
        other => panic!("unexpected {:?}", other),
    }
    let unnamed = ToolsField::Array(vec![ListedTool { name: None, description: None, input_schema: None }]);
    match ToolDefCache::new().learn(&unnamed) {
        Err(McpError::Protocol(m)) => assert_eq!(m, "tool missing 'name'"),
        other => panic!("unexpected {:?}", other),
    }
}

#[test]
fn rpc_errors() {
    assert!(rpc_error(&None).is_none());
    match rpc_error(&Some(None)) {
        Some(McpError::ServerError(m)) => assert_eq!(m, "unknown error"),
        other => panic!("unexpected {:?}", other),
    }
    match rpc_error(&Some(Some("bad params".to_string()))) {
        Some(McpError::ServerError(m)) => assert_eq!(m, "bad params"),
        other => panic!("unexpected {:?}", other),
    }
}

#[test]
fn consent_decisions() {
    let args = serde_json::Value::Null;
    assert_eq!(AutoApprove.request_consent("echo", "write", &args), ConsentDecision::Allow);
    assert_eq!(AutoDeny.request_consent("echo", "write", &args), ConsentDecision::Deny);
    assert!(consent_verdict(ConsentDecision::Allow, "echo", "write").is_ok());
    assert!(consent_verdict(ConsentDecision::AllowAlways, "echo", "write").is_ok());
    match consent_verdict(ConsentDecision::Deny, "echo", "execute") {
        Err(ToolError::PermissionDenied(m)) => assert_eq!(m, "user denied execute by tool 'echo'"),
        other => panic!("expected PermissionDenied, got: {:?}", other),
    }
}

#[test]
fn error_messages() {
    assert_eq!(ToolError::NotFound("x".to_string()).message(), "tool not found: x");
    assert_eq!(ToolError::PermissionDenied("y".to_string()).message(), "permission denied: y");
    assert_eq!(ToolError::InvalidArgs("z".to_string()).message(), "invalid arguments: z");
    assert_eq!(McpError::Spawn("no such file".to_string()).message(), "failed to spawn MCP server: no such file");
    assert_eq!(McpError::Io("closed".to_string()).message(), "IO error: closed");
    match ToolError::from_mcp(McpError::Protocol("bad".to_string())) {
        ToolError::Execution(m) => assert_eq!(m, "protocol error: bad"),
        other => panic!("unexpected {:?}", other),
    }
}

#[test]
fn consent_sandbox_asks_and_remembers() {
    let args = serde_json::Value::Null;
    let mut sandbox = ConsentSandbox::new(Box::new(AutoApprove));
    assert_eq!(sandbox.consent_request_count(), 0);
    assert!(sandbox.last_operation_allowed());
    assert!(sandbox.check("echo", "execute", &args).is_ok());
    assert_eq!(sandbox.consent_request_count(), 1);
    assert!(sandbox.last_operation_allowed());
}

#[test]
fn consent_sandbox_denies_when_callback_denies() {
    let args = serde_json::Value::Null;
    let mut sandbox = ConsentSandbox::new(Box::new(AutoDeny));
    match sandbox.check("echo", "execute", &args) {
        Err(ToolError::PermissionDenied(m)) => assert_eq!(m, "user denied execute by tool 'echo'"),
        other => panic!("expected PermissionDenied, got: {:?}", other),
    }
    assert_eq!(sandbox.consent_request_count(), 1);
    assert!(!sandbox.last_operation_allowed());
}

#[test]
fn execution_gate_asks_only_for_destructive_tools() {
    let args = serde_json::Value::Null;
    let mut deny = ConsentSandbox::new(Box::new(AutoDeny));
    assert!(execution_gate(false, Some(&mut deny), "echo", &args).is_ok());
    assert_eq!(deny.consent_request_count(), 0);
    assert!(deny.last_operation_allowed());
    assert!(execution_gate(true, None, "echo", &args).is_ok());
    match execution_gate(true, Some(&mut deny), "echo", &args) {
        Err(ToolError::PermissionDenied(m)) => assert_eq!(m, "user denied execute by tool 'echo'"),
        other => panic!("expected PermissionDenied, got: {:?}", other),
    }
    assert_eq!(deny.consent_request_count(), 1);
    assert!(!deny.last_operation_allowed());
    let mut allow = ConsentSandbox::new(Box::new(AutoApprove));
    assert!(execution_gate(true, Some(&mut allow), "echo", &args).is_ok());
    assert_eq!(allow.consent_request_count(), 1);
    assert!(allow.last_operation_allowed());
}

#[test]
fn rpc_reply_lines() {
    let ok = rpc_reply("{\"jsonrpc\":\"2.0\",\"id\":1,\"result\":{\"tools\":[]}}\n").unwrap();
    assert_eq!(ok["tools"], serde_json::Value::Array(vec![]));
    let empty = rpc_reply("  {\"jsonrpc\":\"2.0\",\"id\":2}  ").unwrap();
    assert_eq!(empty, serde_json::Value::Object(serde_json::Map::new()));
    match rpc_reply("{\"id\":3,\"error\":{\"code\":-32601,\"message\":\"Unknown tool: x\"}}") {
        Err(McpError::ServerError(m)) => assert_eq!(m, "Unknown tool: x"),
        other => panic!("unexpected {:?}", other),
    }
    match rpc_reply("{\"id\":4,\"error\":{\"code\":1}}") {
        Err(McpError::ServerError(m)) => assert_eq!(m, "unknown error"),
        other => panic!("unexpected {:?}", other),
    }
    match rpc_reply("not json") {
        Err(McpError::JsonRpc(m)) => assert!(m.starts_with("failed to parse response: ")),
        other => panic!("unexpected {:?}", other),
    }
}

#[test]
fn reply_outcomes() {
    let v = serde_json::Value::Bool(true);
    assert_eq!(reply_outcome(Some(v.clone()), &None).unwrap(), v);
    assert_eq!(reply_outcome(None, &None).unwrap(), serde_json::Value::Object(serde_json::Map::new()));
    match reply_outcome(Some(v.clone()), &Some(Some("boom".to_string()))) {
        Err(McpError::ServerError(m)) => assert_eq!(m, "boom"),
        other => panic!("unexpected {:?}", other),
    }
    match reply_outcome(None, &Some(None)) {
        Err(McpError::ServerError(m)) => assert_eq!(m, "unknown error"),
        other => panic!("unexpected {:?}", other),
    }
}

struct ReadOnlyCallback {
    seen: std::sync::Mutex<Vec<(String, String, serde_json::Value)>>,
}

impl ConsentCallback for ReadOnlyCallback {
    fn request_consent(&self, tool_name: &str, operation: &str, args: &serde_json::Value) -> ConsentDecision {
        self.seen.lock().unwrap().push((tool_name.to_string(), operation.to_string(), args.clone()));
        if operation == "read" {
            ConsentDecision::Allow
        } else {
            ConsentDecision::Deny
        }
    }
}

struct Shared(std::sync::Arc<ReadOnlyCallback>);

impl ConsentCallback for Shared {
    fn request_consent(&self, t: &str, o: &str, a: &serde_json::Value) -> ConsentDecision {
        self.0.request_consent(t, o, a)
    }
}

#[test]
fn consent_sandbox_hands_the_operation_to_the_callback() {
    let callback = std::sync::Arc::new(ReadOnlyCallback { seen: std::sync::Mutex::new(Vec::new()) });
    let mut sandbox = ConsentSandbox::new(Box::new(Shared(callback.clone())));
    let args = serde_json::Value::String("/tmp/x".to_string());
    assert!(sandbox.check("fs", "read", &args).is_ok());
    match sandbox.check("fs", "write", &args) {
        Err(ToolError::PermissionDenied(m)) => assert_eq!(m, "user denied write by tool 'fs'"),
        other => panic!("expected PermissionDenied, got: {:?}", other),
    }
    let seen = callback.seen.lock().unwrap();
    assert_eq!(seen.len(), 2);
    assert_eq!(seen[0], ("fs".to_string(), "read".to_string(), args.clone()));
    assert_eq!(seen[1], ("fs".to_string(), "write".to_string(), args.clone()));
}

#[test]
fn call_reply_reads_flag_and_content() {
    let response: serde_json::Value = serde_json::from_str(
        r#"{"isError":true,"content":[{"type":"text","text":"hi"},{"type":"resource","uri":"file:///a","mimeType":"text/plain"}]}"#,
    )
    .unwrap();
    assert_eq!(error_flag(&response), Some(true));
    let blocks = content_blocks(&response).expect("blocks");
    assert_eq!(blocks.len(), 2);
    assert_eq!(blocks[0].kind.as_deref(), Some("text"));
    assert_eq!(blocks[0].text.as_deref(), Some("hi"));
    assert_eq!(blocks[1].uri.as_deref(), Some("file:///a"));
    assert_eq!(blocks[1].mime_type.as_deref(), Some("text/plain"));
    let result = call_reply(&response).unwrap();
    assert!(result.is_error);
    assert_eq!(result.content.len(), 2);

    let flag_text: serde_json::Value = serde_json::from_str(r#"{"isError":"yes","content":[]}"#).unwrap();
    assert_eq!(error_flag(&flag_text), None);
    assert!(!call_reply(&flag_text).unwrap().is_error);

    let not_array: serde_json::Value = serde_json::from_str(r#"{"content":"x"}"#).unwrap();
    assert!(content_blocks(&not_array).is_none());
    match call_reply(&not_array) {
        Err(McpError::Protocol(m)) => assert_eq!(m, "missing 'content' in response"),
        other => panic!("unexpected {:?}", other),
    }
}

#[test]
fn tool_def_cache_learns_listed_tools() {
    let response: serde_json::Value = serde_json::from_str(
        r#"{"tools":[{"name":"echo","description":"Echoes","inputSchema":{"type":"object"}},{"name":"time"}]}"#,
    )
    .unwrap();
    let mut cache = ToolDefCache::new();
    let defs = cache.learn(&listed_tools(&response)).unwrap();
    assert_eq!(defs.len(), 2);
    for d in &defs {
        let found = cache.get(&d.name).expect("learned");
        assert_eq!(found.name, d.name);
        assert_eq!(found.description, d.description);
        assert_eq!(found.schema, d.schema);
    }
    let time = cache.get("time").unwrap();
    assert_eq!(time.description, "");
    assert_eq!(time.schema, serde_json::Value::Object(serde_json::Map::new()));
    assert!(cache.get("other").is_none());

    let nameless: serde_json::Value =
        serde_json::from_str(r#"{"tools":[{"name":"first"},{"description":"no name"},{"name":"last"}]}"#).unwrap();
    let mut partial = ToolDefCache::new();
    match partial.learn(&listed_tools(&nameless)) {
        Err(McpError::Protocol(m)) => assert_eq!(m, "tool missing 'name'"),
        other => panic!("unexpected {:?}", other),
    }
    assert!(partial.get("first").is_some());
    assert!(partial.get("last").is_none());

    let mut untouched = ToolDefCache::new();
    let missing: serde_json::Value = serde_json::from_str(r#"{"result":[]}"#).unwrap();
    match untouched.learn(&listed_tools(&missing)) {
        Err(McpError::Protocol(m)) => assert_eq!(m, "missing 'tools' in response"),
        other => panic!("unexpected {:?}", other),
    }
    let not_array: serde_json::Value = serde_json::from_str(r#"{"tools":{}}"#).unwrap();
    assert_eq!(untouched.learn(&listed_tools(&not_array)).unwrap().len(), 0);
}

#[test]
fn find_tool_takes_the_first_of_a_name() {
    let names = vec!["a".to_string(), "b".to_string(), "b".to_string()];
    assert_eq!(find_tool(&names, "b"), Some(1));
    assert_eq!(find_tool(&names, "a"), Some(0));
    assert_eq!(find_tool(&names, "c"), None);
    assert_eq!(find_tool(&Vec::new(), "a"), None);
}
