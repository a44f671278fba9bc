//! The vocabulary of prompt analysis: complexity tiers, task types, where a
//! decision came from, and analysis errors.

use vstd::prelude::*;
use crate::text::{concat, owned};

verus! {

/// How demanding a prompt is.
#[derive(Debug, Clone, Copy, PartialEq, Eq, Hash, Structural)]
pub enum ComplexityTier {
    Simple,
    Medium,
    Complex,
    Expert,
}

/// The kind of task a prompt asks for; rankings are kept per tier and task
/// type.
#[derive(Debug, Clone, Copy, PartialEq, Eq, Hash, Structural)]
pub enum TaskType {
    Code,
    Creative,
    Analysis,
    Qa,
    Translation,
    General,
}

/// Which stage decided a prompt's complexity.
#[derive(Debug)]
pub enum AnalysisSource {
    Heuristic,
    Classifier { model: String },
    FallbackHeuristic { reason: String },
}

impl Clone for AnalysisSource {
    fn clone(&self) -> (res: Self)
        ensures
            res == *self,
    {
        match self {
            AnalysisSource::Heuristic => AnalysisSource::Heuristic,
            AnalysisSource::Classifier { model } => AnalysisSource::Classifier {
                model: model.clone(),
            },
            AnalysisSource::FallbackHeuristic { reason } => AnalysisSource::FallbackHeuristic {
                reason: reason.clone(),
            },
        }
    }
}

impl PartialEq for AnalysisSource {
    fn eq(&self, other: &Self) -> (res: bool) {
        match self {
            AnalysisSource::Heuristic => match other {
                AnalysisSource::Heuristic => true,
                _ => false,
            },
            AnalysisSource::Classifier { model: a } => match other {
                AnalysisSource::Classifier { model: b } => a.eq(b),
                _ => false,
            },
            AnalysisSource::FallbackHeuristic { reason: a } => match other {
                AnalysisSource::FallbackHeuristic { reason: b } => a.eq(b),
                _ => false,
            },
        }
    }
}

impl vstd::std_specs::cmp::PartialEqSpecImpl for AnalysisSource {
    open spec fn obeys_eq_spec() -> bool {
        true
    }

    open spec fn eq_spec(&self, other: &Self) -> bool {
        match (*self, *other) {
            (AnalysisSource::Heuristic, AnalysisSource::Heuristic) => true,
            (AnalysisSource::Classifier { model: a }, AnalysisSource::Classifier { model: b }) => a@
                == b@,
            (
                AnalysisSource::FallbackHeuristic { reason: a },
                AnalysisSource::FallbackHeuristic { reason: b },
            ) => a@ == b@,
            _ => false,
        }
    }
}

/// Errors of prompt analysis.
#[derive(Debug)]
pub enum AnalysisError {
    Tokenization(String),
    NoTierMatched,
    Config(String),
    Classifier(String),
}

impl AnalysisError {
    /// The human-readable description of the error.
    pub fn message(&self) -> (res: String)
        ensures
            res@ == match self {
                AnalysisError::Tokenization(s) => "tokenization failed: "@ + s@,
                AnalysisError::NoTierMatched => "no tier matched for prompt"@,
                AnalysisError::Config(s) => "config error: "@ + s@,
                AnalysisError::Classifier(s) => "classifier error: "@ + s@,
            },
    {
        match self {
            AnalysisError::Tokenization(s) => concat("tokenization failed: ", s.as_str()),
            AnalysisError::NoTierMatched => owned("no tier matched for prompt"),
            AnalysisError::Config(s) => concat("config error: ", s.as_str()),
            AnalysisError::Classifier(s) => concat("classifier error: ", s.as_str()),
        }
    }
}

} // verus!
