//! Model identifiers and the routing result.

use vstd::prelude::*;
use crate::engine::Cost;
use crate::text::{chars_of, concat, lemma_first_index_of, lemma_trim, owned, find_char, first_index_of, trim, trim_range};

verus! {

/// Canonical model identifier: provider and model name, as "provider/model".
#[derive(Debug, Eq, Hash)]
pub struct ModelId {
    pub provider: String,
    pub model: String,
}

impl View for ModelId {
    type V = (Seq<char>, Seq<char>);

    open spec fn view(&self) -> (Seq<char>, Seq<char>) {
        (self.provider@, self.model@)
    }
}

/// What `ModelId::parse` makes of `s`: the text before and after the first
/// '/', each trimmed of white space; nothing when there is no '/' or a part
/// is empty once trimmed.
pub open spec fn spec_parse_model_id(s: Seq<char>) -> Option<(Seq<char>, Seq<char>)> {
    match first_index_of(s, '/') {
        None => None,
        Some(i) => {
            let provider = trim(s.subrange(0, i));
            let model = trim(s.subrange(i + 1, s.len() as int));
            if provider.len() == 0 || model.len() == 0 {
                None
            } else {
                Some((provider, model))
            }
        },
    }
}

/// The "provider/model" rendering of an identifier.
pub open spec fn spec_render_model_id(id: (Seq<char>, Seq<char>)) -> Seq<char> {
    id.0 + seq!['/'] + id.1
}

proof fn lemma_first_slash(p: Seq<char>, m: Seq<char>)
    requires
        forall|i: int| 0 <= i < p.len() ==> p[i] != '/',
    ensures
        first_index_of(p + seq!['/'] + m, '/') == Some(p.len() as int),
{
    let r = p + seq!['/'] + m;
    assert(r[p.len() as int] == '/');
    let c = choose|i: int|
        0 <= i < r.len() && r[i] == '/' && forall|j: int| 0 <= j < i ==> r[j] != '/';
    if c < p.len() {
        assert(r[c] == p[c]);
    } else if c > p.len() {
        assert(r[p.len() as int] != '/');
    }
}

/// Rendering a parsed identifier and parsing the text again gives the same
/// identifier.
pub proof fn law_parse_render_round_trip(s: Seq<char>)
    requires
        spec_parse_model_id(s) is Some,
    ensures
        spec_parse_model_id(spec_render_model_id(spec_parse_model_id(s)->0)) == spec_parse_model_id(
            s,
        ),
{
    lemma_first_index_of(s, '/');
    let i = first_index_of(s, '/')->0;
    let head = s.subrange(0, i);
    let tail = s.subrange(i + 1, s.len() as int);
    let p = trim(head);
    let m = trim(tail);
    lemma_trim(head);
    lemma_trim(tail);
    let (a, b) = choose|a: int, b: int| 0 <= a <= b <= head.len() && p == head.subrange(a, b);
    assert forall|k: int| 0 <= k < p.len() implies p[k] != '/' by {
        assert(p[k] == head[a + k]);
        assert(head[a + k] == s[a + k]);
    }
    lemma_first_slash(p, m);
    let r = p + seq!['/'] + m;
    assert(r.subrange(0, p.len() as int) =~= p);
    assert(r.subrange((p.len() + 1) as int, r.len() as int) =~= m);
}

impl ModelId {
    /// Parses "provider/model"; `None` when malformed.
    pub fn parse(s: &str) -> (res: Option<ModelId>)
        ensures
            match res {
                Some(id) => spec_parse_model_id(s@) == Some(id@),
                None => spec_parse_model_id(s@) is None,
            },
    {
        let v = chars_of(s);
        let slash = match find_char(&v, '/') {
            Some(i) => i,
            None => return None,
        };
        let len = v.len();
        let head = slice_of(&v, 0, slash);
        let tail = slice_of(&v, slash + 1, len);
        let (a, b) = trim_range(&head);
        let (c, d) = trim_range(&tail);
        if a == b || c == d {
            return None;
        }
        let provider = owned(s.substring_char(a, b));
        let model = owned(s.substring_char(slash + 1 + c, slash + 1 + d));
        proof {
            assert(head@.subrange(a as int, b as int) =~= s@.subrange(a as int, b as int));
            assert(tail@.subrange(c as int, d as int) =~= s@.subrange(
                slash + 1 + c,
                slash + 1 + d,
            ));
        }
        Some(ModelId { provider, model })
    }

    /// Renders as "provider/model".
    pub fn as_str(&self) -> (res: String)
        ensures
            res@ == spec_render_model_id(self@),
    {
        let mut out = self.provider.clone();
        out.append("/");
        out.append(self.model.as_str());
        proof {
            reveal_strlit("/");
        }
        out
    }

    /// Renders as "provider/model" (the text `Display` gives in other
    /// crates).
    pub fn to_string(&self) -> (res: String)
        ensures
            res@ == spec_render_model_id(self@),
    {
        self.as_str()
    }
}

/// The elements `v[from..to]` as a new vector.
fn slice_of(v: &Vec<char>, from: usize, to: usize) -> (res: Vec<char>)
    requires
        from <= to <= v.len(),
    ensures
        res@ == v@.subrange(from as int, to as int),
{
    let mut res: Vec<char> = Vec::new();
    let mut i = from;
    while i < to
        invariant
            from <= i <= to <= v.len(),
            res@ == v@.subrange(from as int, i as int),
        decreases to - i,
    {
        res.push(v[i]);
        i += 1;
    }
    res
}

impl Clone for ModelId {
    fn clone(&self) -> (res: Self)
        ensures
            res == *self,
    {
        ModelId { provider: self.provider.clone(), model: self.model.clone() }
    }
}

impl PartialEq for ModelId {
    fn eq(&self, other: &Self) -> (res: bool) {
        self.provider == other.provider && self.model == other.model
    }
}

impl vstd::std_specs::cmp::PartialEqSpecImpl for ModelId {
    open spec fn obeys_eq_spec() -> bool {
        true
    }

    open spec fn eq_spec(&self, other: &Self) -> bool {
        self@ == other@
    }
}

impl std::str::FromStr for ModelId {
    type Err = RoutingError;

    fn from_str(s: &str) -> (res: Result<Self, Self::Err>)
        ensures
            match res {
                Ok(id) => spec_parse_model_id(s@) == Some(id@),
                Err(e) => spec_parse_model_id(s@) is None && (e matches RoutingError::InvalidModelId(t)
                    && t@ == s@),
            },
    {
        match Self::parse(s) {
            Some(id) => Ok(id),
            None => Err(RoutingError::InvalidModelId(owned(s))),
        }
    }
}

/// The model chosen for a turn, the models to try after it, and the spending
/// limit for the turn.
#[derive(Debug)]
pub struct ModelSpec {
    pub model_id: ModelId,
    pub fallback_chain: Vec<ModelId>,
    pub budget_limit: Option<Cost>,
}

/// Errors of routing.
#[derive(Debug)]
pub enum RoutingError {
    InvalidModelId(String),
    NoModelsForTier,
    ModelNotFound(String),
    Config(String),
}

impl RoutingError {
    /// The human-readable description of the error.
    pub fn message(&self) -> (res: String)
        ensures
            res@ == match self {
                RoutingError::InvalidModelId(s) => "invalid model id: "@ + s@,
                RoutingError::NoModelsForTier => "no models configured for tier"@,
                RoutingError::ModelNotFound(s) => "model not found: "@ + s@,
                RoutingError::Config(s) => "config error: "@ + s@,
            },
    {
        match self {
            RoutingError::InvalidModelId(s) => concat("invalid model id: ", s.as_str()),
            RoutingError::NoModelsForTier => owned("no models configured for tier"),
            RoutingError::ModelNotFound(s) => concat("model not found: ", s.as_str()),
            RoutingError::Config(s) => concat("config error: ", s.as_str()),
        }
    }
}

} // verus!
