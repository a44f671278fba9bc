use workhorse::config::{default_sandbox, default_temp_dir, expand_tilde, validate_routing, ConfigError, TierModels, ToolsDefaults};

fn tier(name: &str, models: &[&str]) -> TierModels {
    TierModels { tier: name.to_string(), models: models.iter().map(|m| m.to_string()).collect() }
}

#[test]
fn valid_routing_passes() {
    let tiers = vec![
        tier("simple", &["openai/gpt-4o-mini"]),
        tier("complex", &["anthropic/opus-4", "custom/70b"]),
    ];
    assert!(validate_routing(&tiers, "sequential").is_ok());
}

#[test]
fn routing_needs_tiers() {
    match validate_routing(&vec![], "sequential") {
        Err(ConfigError::MissingField(f)) => assert_eq!(f, "analyzer.heuristic.tiers"),
        other => panic!("unexpected {:?}", other),
    }
}

#[test]
fn first_bad_model_is_reported() {
    let tiers = vec![
        tier("simple", &["openai/gpt-4o-mini"]),
        tier("medium", &["ok/model", "gpt-4o", "also-bad"]),
        tier("expert", &["bad"]),
    ];
    match validate_routing(&tiers, "sequential") {
        Err(ConfigError::InvalidValue { field, reason }) => {
            assert_eq!(field, "analyzer.heuristic.tiers.medium.models");
            assert_eq!(reason, "invalid model ID 'gpt-4o' (expected 'provider/model')");
        }
        other => panic!("unexpected {:?}", other),
    }
}

#[test]
fn only_sequential_fallback_is_supported() {
    let tiers = vec![tier("simple", &["a/b"])];
    match validate_routing(&tiers, "parallel") {
        Err(ConfigError::InvalidValue { field, reason }) => {
            assert_eq!(field, "analyzer.heuristic.fallback_policy");
            assert_eq!(reason, "unsupported fallback policy 'parallel' (only 'sequential' is supported)");
        }
        other => panic!("unexpected {:?}", other),
    }
}

#[test]
fn defaults() {
    assert_eq!(default_sandbox(), "consent");
    assert_eq!(default_temp_dir(), "/tmp/harness-${SESSION_ID}");
    let d = ToolsDefaults::default();
    assert_eq!(d.sandbox, "consent");
    assert_eq!(d.session_temp_dir, "/tmp/harness-${SESSION_ID}");
}

#[test]
fn config_error_messages() {
    assert_eq!(ConfigError::NotFound("config".to_string()).message(), "config file not found: config");
    assert_eq!(
        ConfigError::Parse { path: "config".to_string(), message: "bad yaml".to_string() }.message(),
        "parse error at config: bad yaml"
    );
    assert_eq!(ConfigError::MissingField("x".to_string()).message(), "missing required field: x");
    assert_eq!(
        ConfigError::InvalidValue { field: "f".to_string(), reason: "r".to_string() }.message(),
        "invalid value for f: r"
    );
}

#[test]
fn tilde_expands_with_a_known_home() {
    assert_eq!(expand_tilde("~/.harness/sessions.db", Some("/home/me")), "/home/me/.harness/sessions.db");
    assert_eq!(expand_tilde("~/.harness/sessions.db", None), "~/.harness/sessions.db");
    assert_eq!(expand_tilde("/var/db", Some("/home/me")), "/var/db");
    assert_eq!(expand_tilde("~user/x", Some("/home/me")), "~user/x");
    assert_eq!(expand_tilde("~/", Some("/h")), "/h/");
}
