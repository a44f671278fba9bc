use workhorse::engine::learning_router::{
    apply_ranking, is_well_sampled, ranked_models, ranked_order, reorder_by_score, under_sampled, RankedModel,
    SampleCount,
};
use workhorse::engine::ranking::{fnv1a_hash, project_id, tier_str, validate_rating};
use workhorse::engine::{ComplexityTier, Cost, ModelId, ModelSpec, RankingError, RankingSwitch, Scope};

fn id(s: &str) -> ModelId {
    ModelId::parse(s).unwrap()
}

#[test]
fn validate_rating_accepts_one_to_five() {
    for r in 1..=5 {
        assert!(validate_rating(r).is_ok());
    }
    assert!(matches!(validate_rating(0), Err(RankingError::InvalidRating(0))));
    assert!(matches!(validate_rating(6), Err(RankingError::InvalidRating(6))));
    assert!(matches!(validate_rating(u32::MAX), Err(RankingError::InvalidRating(u32::MAX))));
}

#[test]
fn ranking_error_messages() {
    assert_eq!(RankingError::InvalidRating(6).message(), "invalid rating: 6 (must be 1-5)");
    assert_eq!(RankingError::Storage("locked".to_string()).message(), "storage error: locked");
    assert_eq!(RankingError::NoLastResponse.message(), "no last response to rate");
}

#[test]
fn fnv1a_known_values() {
    assert_eq!(fnv1a_hash(""), 0xcbf29ce484222325);
    assert_eq!(fnv1a_hash("a"), 0xaf63dc4c8601ec8c);
    assert_eq!(fnv1a_hash("foobar"), 0x85944171f73967e8);
}

#[test]
fn project_scope_ids() {
    assert_eq!(project_id("a"), "proj_af63dc4c8601ec8c");
    assert_eq!(project_id(""), "proj_cbf29ce484222325");
    let scope = Scope::from_path("foobar");
    assert_eq!(scope, Scope::Project("proj_85944171f73967e8".to_string()));
    assert_eq!(scope.db_value(), Some("proj_85944171f73967e8".to_string()));
    assert!(!scope.is_global());
}

#[test]
fn scope_for_config() {
    let global = Scope::for_config("global", "/home/me/project");
    assert!(global.is_global());
    assert_eq!(global.db_value(), None);
    assert_eq!(Scope::for_config("project", "a"), Scope::Project("proj_af63dc4c8601ec8c".to_string()));
    assert_eq!(Scope::for_config("Global", "a"), Scope::from_path("a"));
}

#[test]
fn tier_names() {
    assert_eq!(tier_str(ComplexityTier::Simple), "simple");
    assert_eq!(tier_str(ComplexityTier::Medium), "medium");
    assert_eq!(tier_str(ComplexityTier::Complex), "complex");
    assert_eq!(tier_str(ComplexityTier::Expert), "expert");
}

#[test]
fn ranking_switch_disabled_by_default() {
    let switch = RankingSwitch::new(false);
    assert!(!switch.is_enabled());
}

#[test]
fn ranking_switch_enabled_per_session() {
    let mut switch = RankingSwitch::new(false);
    switch.set_session_enabled(true);
    assert!(switch.is_enabled());
}

#[test]
fn ranking_switch_disabled_per_session() {
    let mut switch = RankingSwitch::new(true);
    assert!(switch.is_enabled());
    switch.set_session_enabled(false);
    assert!(!switch.is_enabled());
    switch.set_session_enabled(true);
    assert!(switch.is_enabled());
}

fn ranked(s: &str, key: Option<u64>) -> RankedModel {
    RankedModel { model: id(s), score_key: key }
}

#[test]
fn ranked_order_scored_first_best_first_stable() {
    let items = vec![
        ranked("p/a", None),
        ranked("p/b", Some(5)),
        ranked("p/c", Some(9)),
        ranked("p/d", None),
        ranked("p/e", Some(5)),
    ];
    assert_eq!(ranked_order(&items), vec![2, 1, 4, 0, 3]);
    let names: Vec<String> = reorder_by_score(&items).iter().map(|m| m.as_str()).collect();
    assert_eq!(names, vec!["p/c", "p/b", "p/e", "p/a", "p/d"]);
}

#[test]
fn ranked_order_of_nothing() {
    assert!(ranked_order(&vec![]).is_empty());
}

#[test]
fn well_sampled_reads_first_entry() {
    let counts = vec![
        SampleCount { model_id: "openai/gpt-4o".to_string(), sample_count: 3 },
        SampleCount { model_id: "openai/gpt-4o".to_string(), sample_count: 10 },
        SampleCount { model_id: "anthropic/opus".to_string(), sample_count: 5 },
    ];
    assert!(!is_well_sampled(&id("openai/gpt-4o"), &counts, 5));
    assert!(is_well_sampled(&id("openai/gpt-4o"), &counts, 3));
    assert!(is_well_sampled(&id("anthropic/opus"), &counts, 5));
    assert!(!is_well_sampled(&id("x/y"), &counts, 0));
}

#[test]
fn under_sampled_keeps_order() {
    let models = vec![id("p/a"), id("p/b"), id("p/c")];
    let picked = under_sampled(&models, &vec![false, true, false]);
    let names: Vec<String> = picked.iter().map(|m| m.as_str()).collect();
    assert_eq!(names, vec!["p/a", "p/c"]);
}

fn spec() -> ModelSpec {
    ModelSpec { model_id: id("cfg/first"), fallback_chain: vec![id("cfg/second")], budget_limit: Some(Cost(500)) }
}

#[test]
fn apply_ranking_without_exploration() {
    let res = apply_ranking(spec(), vec![id("p/b"), id("p/a"), id("p/c")], None);
    assert_eq!(res.model_id, id("p/b"));
    assert_eq!(res.fallback_chain, vec![id("p/a"), id("p/c")]);
    assert_eq!(res.budget_limit, Some(Cost(500)));
}

#[test]
fn apply_ranking_with_exploration() {
    let res = apply_ranking(spec(), vec![id("p/b"), id("p/a"), id("p/c")], Some(id("p/a")));
    assert_eq!(res.model_id, id("p/a"));
    assert_eq!(res.fallback_chain, vec![id("p/b"), id("p/c")]);
}

#[test]
fn apply_ranking_of_nothing_keeps_the_route() {
    let res = apply_ranking(spec(), vec![], Some(id("p/a")));
    assert_eq!(res.model_id, id("cfg/first"));
    assert_eq!(res.fallback_chain, vec![id("cfg/second")]);
}

#[test]
fn cold_start_keeps_configured_order() {
    let items = vec![ranked("p/c", None), ranked("p/a", None), ranked("p/b", None)];
    assert_eq!(ranked_order(&items), vec![0, 1, 2]);
    let names: Vec<String> = reorder_by_score(&items).iter().map(|m| m.as_str()).collect();
    assert_eq!(names, vec!["p/c", "p/a", "p/b"]);
}

#[test]
fn ranked_route_keeps_the_models() {
    let route = ModelSpec {
        model_id: id("p/a"),
        fallback_chain: vec![id("p/b"), id("p/c"), id("p/d")],
        budget_limit: Some(Cost(7)),
    };
    // b and d are ranked (d best); a and c keep their order after them; the
    // key list is shorter than the route, so d's key is the last one given.
    let reordered = ranked_models(&route, &vec![None, Some(3), None, Some(9)]);
    assert_eq!(reordered, vec![id("p/d"), id("p/b"), id("p/a"), id("p/c")]);
    let short = ranked_models(&route, &vec![None, Some(3)]);
    assert_eq!(short, vec![id("p/b"), id("p/a"), id("p/c"), id("p/d")]);
    let routed = apply_ranking(route, reordered, Some(id("p/c")));
    assert_eq!(routed.model_id, id("p/c"));
    assert_eq!(routed.fallback_chain, vec![id("p/d"), id("p/b"), id("p/a")]);
    assert_eq!(routed.budget_limit, Some(Cost(7)));
}
