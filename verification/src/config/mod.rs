//! Configuration rules: the defaults that tool settings fall back to and
//! the validation of routing settings.

use vstd::prelude::*;
use crate::engine::router::{spec_parse_model_id, ModelId};
use crate::text::{chars_of, concat, owned, str_eq};

verus! {

/// Errors of configuration loading and validation.
#[derive(Debug)]
pub enum ConfigError {
    NotFound(String),
    Parse { path: String, message: String },
    MissingField(String),
    InvalidValue { field: String, reason: String },
}

/// The description of a configuration error.
pub open spec fn config_error_text(e: ConfigError) -> Seq<char> {
    match e {
        ConfigError::NotFound(s) => "config file not found: "@ + s@,
        ConfigError::Parse { path, message } => "parse error at "@ + path@ + ": "@ + message@,
        ConfigError::MissingField(s) => "missing required field: "@ + s@,
        ConfigError::InvalidValue { field, reason } => "invalid value for "@ + field@ + ": "@
            + reason@,
    }
}

impl ConfigError {
    /// The human-readable description of the error.
    pub fn message(&self) -> (res: String)
        ensures
            res@ == config_error_text(*self),
    {
        match self {
            ConfigError::NotFound(s) => concat("config file not found: ", s.as_str()),
            ConfigError::Parse { path, message } => {
                let mut out = concat("parse error at ", path.as_str());
                out.append(": ");
                out.append(message.as_str());
                out
            },
            ConfigError::MissingField(s) => concat("missing required field: ", s.as_str()),
            ConfigError::InvalidValue { field, reason } => {
                let mut out = concat("invalid value for ", field.as_str());
                out.append(": ");
                out.append(reason.as_str());
                out
            },
        }
    }
}

/// The sandbox a tool server gets when its configuration names none.
pub fn default_sandbox() -> (res: String)
    ensures
        res@ == "consent"@,
{
    owned("consent")
}

/// The per-session temporary directory when the configuration names none.
pub fn default_temp_dir() -> (res: String)
    ensures
        res@ == "/tmp/harness-${SESSION_ID}"@,
{
    owned("/tmp/harness-${SESSION_ID}")
}

/// Defaults that apply to every tool server.
#[derive(Debug)]
pub struct ToolsDefaults {
    pub sandbox: String,
    pub session_temp_dir: String,
}

impl Default for ToolsDefaults {
    fn default() -> (res: Self)
        ensures
            res.sandbox@ == "consent"@,
            res.session_temp_dir@ == "/tmp/harness-${SESSION_ID}"@,
    {
        ToolsDefaults { sandbox: default_sandbox(), session_temp_dir: default_temp_dir() }
    }
}

/// A tier of the routing configuration: its name and the model identifiers
/// it lists.
#[derive(Debug)]
pub struct TierModels {
    pub tier: String,
    pub models: Vec<String>,
}

/// The first model identifier of the tiers that does not parse, as (tier,
/// model) positions, tiers in the order given.
pub open spec fn first_invalid_model(tiers: Seq<TierModels>) -> Option<(int, int)>
    decreases tiers.len(),
{
    if tiers.len() == 0 {
        None
    } else {
        match first_invalid_model(tiers.drop_last()) {
            Some(p) => Some(p),
            None => {
                let ms = tiers.last().models@;
                if exists|j: int| 0 <= j < ms.len() && spec_parse_model_id(ms[j]@) is None {
                    Some(
                        (
                            tiers.len() - 1,
                            choose|j: int|
                                0 <= j < ms.len() && spec_parse_model_id(ms[j]@) is None
                                    && forall|k: int|
                                    0 <= k < j ==> spec_parse_model_id(ms[k]@) is Some,
                        ),
                    )
                } else {
                    None
                }
            },
        }
    }
}

proof fn lemma_first_invalid_prefix(tiers: Seq<TierModels>, k: int)
    requires
        0 <= k <= tiers.len(),
        first_invalid_model(tiers.take(k)) is Some,
    ensures
        first_invalid_model(tiers) == first_invalid_model(tiers.take(k)),
    decreases tiers.len() - k,
{
    if k < tiers.len() {
        assert(tiers.take(k + 1).drop_last() =~= tiers.take(k));
        lemma_first_invalid_prefix(tiers, k + 1);
    } else {
        assert(tiers.take(k) =~= tiers);
    }
}

/// Whether every model identifier of every tier reads "provider/model".
pub open spec fn all_models_valid(tiers: Seq<TierModels>) -> bool {
    forall|t: int, j: int|
        0 <= t < tiers.len() && 0 <= j < tiers[t].models@.len() ==> spec_parse_model_id(
            #[trigger] tiers[t].models@[j]@,
        ) is Some
}

/// The first invalid model identifier is found exactly when there is one:
/// it is at a real position, does not read "provider/model", and every
/// identifier before it (earlier tiers, then earlier in its tier) does.
pub proof fn law_first_invalid_model(tiers: Seq<TierModels>)
    ensures
        first_invalid_model(tiers) is None <==> all_models_valid(tiers),
        first_invalid_model(tiers) matches Some((t, j)) ==> {
            &&& 0 <= t < tiers.len()
            &&& 0 <= j < tiers[t].models@.len()
            &&& spec_parse_model_id(tiers[t].models@[j]@) is None
            &&& forall|k: int| 0 <= k < j ==> spec_parse_model_id(
                #[trigger] tiers[t].models@[k]@,
            ) is Some
            &&& all_models_valid(tiers.take(t))
        },
    decreases tiers.len(),
{
    if tiers.len() > 0 {
        let init = tiers.drop_last();
        law_first_invalid_model(init);
        let n = tiers.len() - 1;
        let ms = tiers.last().models@;
        assert(tiers.last() == tiers[n]);
        match first_invalid_model(init) {
            Some((t, j)) => {
                assert(tiers[t] == init[t]);
                assert(init.take(t) =~= tiers.take(t));
                assert(!all_models_valid(tiers)) by {
                    assert(spec_parse_model_id(tiers[t].models@[j]@) is None);
                }
            },
            None => {
                if exists|j: int| 0 <= j < ms.len() && spec_parse_model_id(ms[j]@) is None {
                    let j0 = choose|j: int| 0 <= j < ms.len() && spec_parse_model_id(ms[j]@) is None;
                    lemma_first_in_models(ms, j0);
                    assert(!all_models_valid(tiers)) by {
                        assert(spec_parse_model_id(tiers[n].models@[j0]@) is None);
                    }
                    assert(tiers.take(n) =~= init);
                } else {
                    assert forall|t: int, j: int|
                        0 <= t < tiers.len() && 0 <= j < tiers[t].models@.len() implies spec_parse_model_id(
                        #[trigger] tiers[t].models@[j]@,
                    ) is Some by {
                        if t < n {
                            assert(tiers[t] == init[t]);
                        }
                    }
                }
            },
        }
    }
}

/// When some model identifier of a list does not parse, there is a first
/// one.
proof fn lemma_first_in_models(ms: Seq<String>, j0: int)
    requires
        0 <= j0 < ms.len(),
        spec_parse_model_id(ms[j0]@) is None,
    ensures
        exists|c: int|
            0 <= c < ms.len() && spec_parse_model_id(ms[c]@) is None && forall|k: int|
                0 <= k < c ==> spec_parse_model_id(ms[k]@) is Some,
    decreases j0,
{
    if exists|k: int| 0 <= k < j0 && spec_parse_model_id(ms[k]@) is None {
        let k = choose|k: int| 0 <= k < j0 && spec_parse_model_id(ms[k]@) is None;
        lemma_first_in_models(ms, k);
    }
}

/// The field that names the models of a tier.
pub open spec fn tier_models_field(tier: Seq<char>) -> Seq<char> {
    "analyzer.heuristic.tiers."@ + tier + ".models"@
}

/// Why a model identifier is refused.
pub open spec fn invalid_model_reason(model: Seq<char>) -> Seq<char> {
    "invalid model ID '"@ + model + "' (expected 'provider/model')"@
}

/// Why a fallback policy is refused.
pub open spec fn policy_reason(policy: Seq<char>) -> Seq<char> {
    "unsupported fallback policy '"@ + policy + "' (only 'sequential' is supported)"@
}

/// Checks routing settings: tiers must be configured; every model
/// identifier must read "provider/model" (the first that does not, tiers in
/// the order given, is reported); the fallback policy must be
/// "sequential".
pub fn validate_routing(tiers: &Vec<TierModels>, fallback_policy: &str) -> (res: Result<
    (),
    ConfigError,
>)
    ensures
        tiers@.len() == 0 ==> (res matches Err(ConfigError::MissingField(f)) && f@
            == "analyzer.heuristic.tiers"@),
        !all_models_valid(tiers@) ==> res is Err,
        all_models_valid(tiers@) && tiers@.len() > 0 ==> (res is Ok <==> fallback_policy@
            == "sequential"@),
        tiers@.len() > 0 ==> match first_invalid_model(tiers@) {
            Some((t, j)) => res matches Err(ConfigError::InvalidValue { field, reason }) && field@
                == tier_models_field(tiers@[t].tier@) && reason@ == invalid_model_reason(
                tiers@[t].models@[j]@,
            ),
            None => if fallback_policy@ == "sequential"@ {
                res is Ok
            } else {
                res matches Err(ConfigError::InvalidValue { field, reason }) && field@
                    == "analyzer.heuristic.fallback_policy"@ && reason@ == policy_reason(
                    fallback_policy@,
                )
            },
        },
{
    proof {
        law_first_invalid_model(tiers@);
    }
    if tiers.len() == 0 {
        return Err(ConfigError::MissingField(owned("analyzer.heuristic.tiers")));
    }
    let mut t: usize = 0;
    assert(tiers@.take(0) =~= Seq::<TierModels>::empty());
    while t < tiers.len()
        invariant
            t <= tiers.len(),
            first_invalid_model(tiers@.take(t as int)) is None,
        decreases tiers.len() - t,
    {
        let ms = &tiers[t].models;
        let mut j: usize = 0;
        while j < ms.len()
            invariant
                j <= ms.len(),
                t < tiers.len(),
                first_invalid_model(tiers@.take(t as int)) is None,
                *ms == tiers@[t as int].models,
                forall|k: int| 0 <= k < j ==> spec_parse_model_id(ms@[k]@) is Some,
            decreases ms.len() - j,
        {
            match ModelId::parse(ms[j].as_str()) {
                Some(_) => {},
                None => {
                    proof {
                        let pre = tiers@.take(t + 1);
                        assert(pre.drop_last() =~= tiers@.take(t as int));
                        assert(pre.last() == tiers@[t as int]);
                        let c = choose|c: int|
                            0 <= c < ms@.len() && spec_parse_model_id(ms@[c]@) is None && forall|
                                k: int,
                            | 0 <= k < c ==> spec_parse_model_id(ms@[k]@) is Some;
                        assert(c == j as int) by {
                            if c < j {
                            } else if c > j {
                            }
                        }
                        assert(first_invalid_model(pre) == Some((t as int, j as int)));
                        lemma_first_invalid_prefix(tiers@, t + 1);
                    }
                    let mut field = concat("analyzer.heuristic.tiers.", tiers[t].tier.as_str());
                    field.append(".models");
                    let mut reason = concat("invalid model ID '", ms[j].as_str());
                    reason.append("' (expected 'provider/model')");
                    return Err(ConfigError::InvalidValue { field, reason });
                },
            }
            j += 1;
        }
        proof {
            let pre = tiers@.take(t + 1);
            assert(pre.drop_last() =~= tiers@.take(t as int));
            assert(pre.last() == tiers@[t as int]);
        }
        t += 1;
    }
    assert(tiers@.take(tiers.len() as int) =~= tiers@);
    if str_eq(fallback_policy, "sequential") {
        Ok(())
    } else {
        let mut reason = concat("unsupported fallback policy '", fallback_policy);
        reason.append("' (only 'sequential' is supported)");
        Err(
            ConfigError::InvalidValue {
                field: owned("analyzer.heuristic.fallback_policy"),
                reason,
            },
        )
    }
}

/// A configured path with a leading "~/" replaced by the home directory
/// and "/", when the home directory is known; otherwise the path as it is.
pub open spec fn spec_expand_tilde(path: Seq<char>, home: Option<Seq<char>>) -> Seq<char> {
    if path.len() >= 2 && path[0] == '~' && path[1] == '/' && home is Some {
        home->0 + "/"@ + path.skip(2)
    } else {
        path
    }
}

/// Expands a leading "~/" of a configured path (see `spec_expand_tilde`).
pub fn expand_tilde(path: &str, home: Option<&str>) -> (res: String)
    ensures
        res@ == spec_expand_tilde(
            path@,
            match home {
                Some(h) => Some(h@),
                None => None,
            },
        ),
{
    let v = chars_of(path);
    let n = v.len();
    if n >= 2 && v[0] == '~' && v[1] == '/' {
        match home {
            Some(h) => {
                let mut out = concat(h, "/");
                out.append(path.substring_char(2, n));
                proof {
                    assert(path@.subrange(2, n as int) =~= path@.skip(2));
                }
                return out;
            },
            None => {},
        }
    }
    owned(path)
}

} // verus!
