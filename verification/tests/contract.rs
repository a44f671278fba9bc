use workhorse::adapters::{ResponseEvent, ToolInvocation, Usage};
use workhorse::engine::{AnalysisError, AnalysisSource, ComplexityTier, Cost, ModelId, RoutingError};
use workhorse::tools::{SandboxLevel, ToolContent, ToolResult};

#[test]
fn model_id_parses_valid_provider_model() {
    let id = ModelId::parse("openai/gpt-4o").unwrap();
    assert_eq!(id.provider, "openai");
    assert_eq!(id.model, "gpt-4o");
}

#[test]
fn model_id_rejects_malformed_strings() {
    assert!(ModelId::parse("no-slash").is_none());
    assert!(ModelId::parse("/leading-slash").is_none());
    assert!(ModelId::parse("trailing-slash/").is_none());
    assert!(ModelId::parse("").is_none());
    assert!(ModelId::parse("  /  ").is_none());
}

#[test]
fn model_id_display_round_trips_through_fromstr() {
    let id = ModelId::parse("anthropic/sonnet-4").unwrap();
    assert_eq!(id.as_str(), "anthropic/sonnet-4");
    assert_eq!(id.to_string(), "anthropic/sonnet-4");
    let parsed: ModelId = "anthropic/sonnet-4".parse().unwrap();
    assert_eq!(parsed, id);
}

#[test]
fn model_id_fromstr_rejects_invalid() {
    let result: Result<ModelId, RoutingError> = "no-slash".parse();
    assert!(result.is_err());
}

#[test]
fn model_id_parse_trims_each_part() {
    let id = ModelId::parse("  openai /  gpt-4o ").unwrap();
    assert_eq!(id.provider, "openai");
    assert_eq!(id.model, "gpt-4o");
}

#[test]
fn model_id_parse_splits_at_first_slash() {
    let id = ModelId::parse("openrouter/anthropic/sonnet-3.5").unwrap();
    assert_eq!(id.provider, "openrouter");
    assert_eq!(id.model, "anthropic/sonnet-3.5");
    assert_eq!(id.as_str(), "openrouter/anthropic/sonnet-3.5");
}

#[test]
fn model_id_render_then_parse_gives_same_id() {
    let id = ModelId::parse(" a / b/c ").unwrap();
    let again = ModelId::parse(&id.as_str()).unwrap();
    assert_eq!(again, id);
}

#[test]
fn model_id_fromstr_error_is_invalid_model_id() {
    let result: Result<ModelId, RoutingError> = "  /x".parse();
    match result {
        Err(RoutingError::InvalidModelId(s)) => assert_eq!(s, "  /x"),
        other => panic!("unexpected: {:?}", other),
    }
}

#[test]
fn cost_add_accumulates() {
    let a = Cost(150);
    let b = Cost(225);
    let total = a.add(b);
    assert_eq!(total.0, 375);
}

#[test]
fn complexity_tier_has_four_levels() {
    assert_eq!(
        vec![
            ComplexityTier::Simple,
            ComplexityTier::Medium,
            ComplexityTier::Complex,
            ComplexityTier::Expert,
        ]
        .len(),
        4
    );
    assert_ne!(ComplexityTier::Simple, ComplexityTier::Medium);
    assert_ne!(ComplexityTier::Medium, ComplexityTier::Complex);
    assert_ne!(ComplexityTier::Complex, ComplexityTier::Expert);
}

#[test]
fn analysis_source_covers_all_sources() {
    let _heuristic = AnalysisSource::Heuristic;
    let _classifier = AnalysisSource::Classifier {
        model: "openai/gpt-4o-mini".to_string(),
    };
    let _fallback = AnalysisSource::FallbackHeuristic {
        reason: "classifier timeout".to_string(),
    };
}

#[test]
fn analysis_source_equality_compares_fields() {
    let a = AnalysisSource::Classifier { model: "m/x".to_string() };
    let b = AnalysisSource::Classifier { model: "m/x".to_string() };
    let c = AnalysisSource::Classifier { model: "m/y".to_string() };
    assert_eq!(a, b);
    assert_ne!(a, c);
    assert_ne!(AnalysisSource::Heuristic, a);
    assert_eq!(a.clone(), a);
}

#[test]
fn response_event_covers_chunk_toolcall_done() {
    let _chunk = ResponseEvent::Chunk("hello".to_string());
    let _tool_call = ResponseEvent::ToolCall(ToolInvocation {
        call_id: "call_1".to_string(),
        tool_name: "filesystem".to_string(),
        arguments: serde_json::Value::Object(serde_json::Map::new()),
    });
    let _done = ResponseEvent::Done(Usage {
        input_tokens: 100,
        output_tokens: 50,
        cost: Cost(5),
    });
}

#[test]
fn tool_content_matches_mcp_types() {
    let _text = ToolContent::Text("result".to_string());
    let _image = ToolContent::Image {
        mime_type: "image/png".to_string(),
        data: vec![0x89, 0x50, 0x4E, 0x47],
    };
    let _resource = ToolContent::Resource {
        uri: "file:///tmp/test".to_string(),
        mime_type: "text/plain".to_string(),
    };
}

#[test]
fn sandbox_level_has_four_variants() {
    assert_eq!(
        vec![
            SandboxLevel::Consent,
            SandboxLevel::Wasmtime,
            SandboxLevel::Docker,
            SandboxLevel::NoSandbox,
        ]
        .len(),
        4
    );
    assert_ne!(SandboxLevel::Consent, SandboxLevel::NoSandbox);
}

#[test]
fn tool_result_with_error_flag() {
    let ok = ToolResult {
        content: vec![ToolContent::Text("done".to_string())],
        is_error: false,
    };
    let err = ToolResult {
        content: vec![ToolContent::Text("permission denied".to_string())],
        is_error: true,
    };
    assert!(!ok.is_error);
    assert!(err.is_error);
}

#[test]
fn routing_and_analysis_error_messages() {
    assert_eq!(RoutingError::InvalidModelId("x".to_string()).message(), "invalid model id: x");
    assert_eq!(RoutingError::NoModelsForTier.message(), "no models configured for tier");
    assert_eq!(RoutingError::ModelNotFound("a/b".to_string()).message(), "model not found: a/b");
    assert_eq!(RoutingError::Config("bad".to_string()).message(), "config error: bad");
    assert_eq!(AnalysisError::Tokenization("t".to_string()).message(), "tokenization failed: t");
    assert_eq!(AnalysisError::NoTierMatched.message(), "no tier matched for prompt");
    assert_eq!(AnalysisError::Config("c".to_string()).message(), "config error: c");
    assert_eq!(AnalysisError::Classifier("k".to_string()).message(), "classifier error: k");
}
