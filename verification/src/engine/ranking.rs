//! The rule-level parts of the model ranking engine: rating validation,
//! rating scopes and their storage keys, tier names and the session's
//! on/off switch.

use vstd::prelude::*;
use vstd::utf8::encode_utf8;
use crate::engine::analyzer::ComplexityTier;
use crate::text::{concat, decimal, decimal_text, owned, str_eq};

verus! {

/// Errors of ranking operations.
#[derive(Debug)]
pub enum RankingError {
    Storage(String),
    InvalidRating(u32),
    NoLastResponse,
}

impl RankingError {
    /// The human-readable description of the error.
    pub fn message(&self) -> (res: String)
        ensures
            res@ == match self {
                RankingError::Storage(s) => "storage error: "@ + s@,
                RankingError::InvalidRating(r) => "invalid rating: "@ + decimal_text(*r as nat)
                    + " (must be 1-5)"@,
                RankingError::NoLastResponse => "no last response to rate"@,
            },
    {
        match self {
            RankingError::Storage(s) => concat("storage error: ", s.as_str()),
            RankingError::InvalidRating(r) => {
                let n = decimal(*r as u64);
                let mut out = concat("invalid rating: ", n.as_str());
                out.append(" (must be 1-5)");
                out
            },
            RankingError::NoLastResponse => owned("no last response to rate"),
        }
    }
}

/// Accepts ratings from 1 to 5; any other is an invalid rating.
pub fn validate_rating(rating: u32) -> (res: Result<(), RankingError>)
    ensures
        (1 <= rating <= 5) <==> res is Ok,
        !(1 <= rating <= 5) ==> (res matches Err(RankingError::InvalidRating(r)) && r == rating),
{
    if 1 <= rating && rating <= 5 {
        Ok(())
    } else {
        Err(RankingError::InvalidRating(rating))
    }
}

/// Where ratings are kept: shared by all projects, or per project.
#[derive(Debug)]
pub enum Scope {
    Global,
    Project(String),
}

impl Clone for Scope {
    fn clone(&self) -> (res: Self)
        ensures
            res == *self,
    {
        match self {
            Scope::Global => Scope::Global,
            Scope::Project(id) => Scope::Project(id.clone()),
        }
    }
}

impl PartialEq for Scope {
    fn eq(&self, other: &Self) -> (res: bool) {
        match self {
            Scope::Global => other.is_global(),
            Scope::Project(a) => match other {
                Scope::Project(b) => a.eq(b),
                Scope::Global => false,
            },
        }
    }
}

impl Eq for Scope {

}

impl vstd::std_specs::cmp::PartialEqSpecImpl for Scope {
    open spec fn obeys_eq_spec() -> bool {
        true
    }

    open spec fn eq_spec(&self, other: &Self) -> bool {
        match (*self, *other) {
            (Scope::Global, Scope::Global) => true,
            (Scope::Project(a), Scope::Project(b)) => a@ == b@,
            _ => false,
        }
    }
}

impl Scope {
    /// Whether this is the global scope.
    pub fn is_global(&self) -> (res: bool)
        ensures
            res == (*self is Global),
    {
        match self {
            Scope::Global => true,
            Scope::Project(_) => false,
        }
    }

    /// The value stored with a rating: none for the global scope, the
    /// project's identifier otherwise.
    pub fn db_value(&self) -> (res: Option<String>)
        ensures
            match self {
                Scope::Global => res is None,
                Scope::Project(id) => res == Some(*id),
            },
    {
        match self {
            Scope::Global => None,
            Scope::Project(id) => Some(id.clone()),
        }
    }

    /// The project scope of a working directory: "proj_" and the FNV-1a
    /// hash of the path's UTF-8 bytes in 16 lower-case hex digits.
    pub fn from_path(path: &str) -> (res: Scope)
        ensures
            res matches Scope::Project(id) && id@ == project_scope_id(path@),
    {
        Scope::Project(project_id(path))
    }

    /// The scope a configuration asks for: global when it says "global",
    /// the working directory's project otherwise.
    pub fn for_config(scope: &str, cwd: &str) -> (res: Scope)
        ensures
            scope@ == "global"@ ==> res is Global,
            scope@ != "global"@ ==> (res matches Scope::Project(id) && id@ == project_scope_id(
                cwd@,
            )),
    {
        if str_eq(scope, "global") {
            Scope::Global
        } else {
            Scope::from_path(cwd)
        }
    }
}

/// The FNV-1a offset basis.
pub const FNV_OFFSET: u64 = 0xcbf29ce484222325u64;

/// The FNV-1a prime.
pub const FNV_PRIME: u64 = 0x100000001b3u64;

/// One FNV-1a step: xor in the byte, multiply by the prime modulo 2^64.
pub open spec fn fnv1a_step(h: u64, b: u8) -> u64 {
    (((h ^ (b as u64)) as nat * FNV_PRIME as nat) % 0x1_0000_0000_0000_0000nat) as u64
}

/// The 64-bit FNV-1a hash of a byte sequence.
pub open spec fn fnv1a(bytes: Seq<u8>) -> u64
    decreases bytes.len(),
{
    if bytes.len() == 0 {
        FNV_OFFSET
    } else {
        fnv1a_step(fnv1a(bytes.drop_last()), bytes.last())
    }
}

/// The 64-bit FNV-1a hash of the UTF-8 bytes of `s`.
pub fn fnv1a_hash(s: &str) -> (h: u64)
    ensures
        h == fnv1a(encode_utf8(s@)),
{
    let bytes = s.as_bytes();
    let mut hash: u64 = FNV_OFFSET;
    let mut i: usize = 0;
    while i < bytes.len()
        invariant
            i <= bytes@.len(),
            bytes@ == encode_utf8(s@),
            hash == fnv1a(bytes@.take(i as int)),
        decreases bytes@.len() - i,
    {
        assert(bytes@.take(i + 1).drop_last() =~= bytes@.take(i as int));
        hash = hash ^ (bytes[i] as u64);
        hash = hash.wrapping_mul(FNV_PRIME);
        i += 1;
    }
    assert(bytes@.take(bytes@.len() as int) =~= bytes@);
    hash
}

/// The lower-case hex digit of `n` (below 16).
pub open spec fn hex_digit_char(n: u64) -> char {
    if n < 10 {
        ((n + 48) as u8) as char
    } else {
        ((n + 87) as u8) as char
    }
}

/// `h` in 16 lower-case hex digits, most significant first.
pub open spec fn hex16(h: u64) -> Seq<char> {
    Seq::new(16, |i: int| hex_digit_char((h >> ((60 - 4 * i) as u64)) & 0xf))
}

/// The identifier of the project scope of a path.
pub open spec fn project_scope_id(path: Seq<char>) -> Seq<char> {
    "proj_"@ + hex16(fnv1a(encode_utf8(path)))
}

/// The one-character text of a hex digit.
fn hex_digit_str(n: u64) -> (res: &'static str)
    requires
        n < 16,
    ensures
        res@ == seq![hex_digit_char(n)],
{
    if n == 0 {
        proof {
            reveal_strlit("0");
        }
        "0"
    } else if n == 1 {
        proof {
            reveal_strlit("1");
        }
        "1"
    } else if n == 2 {
        proof {
            reveal_strlit("2");
        }
        "2"
    } else if n == 3 {
        proof {
            reveal_strlit("3");
        }
        "3"
    } else if n == 4 {
        proof {
            reveal_strlit("4");
        }
        "4"
    } else if n == 5 {
        proof {
            reveal_strlit("5");
        }
        "5"
    } else if n == 6 {
        proof {
            reveal_strlit("6");
        }
        "6"
    } else if n == 7 {
        proof {
            reveal_strlit("7");
        }
        "7"
    } else if n == 8 {
        proof {
            reveal_strlit("8");
        }
        "8"
    } else if n == 9 {
        proof {
            reveal_strlit("9");
        }
        "9"
    } else if n == 10 {
        proof {
            reveal_strlit("a");
        }
        "a"
    } else if n == 11 {
        proof {
            reveal_strlit("b");
        }
        "b"
    } else if n == 12 {
        proof {
            reveal_strlit("c");
        }
        "c"
    } else if n == 13 {
        proof {
            reveal_strlit("d");
        }
        "d"
    } else if n == 14 {
        proof {
            reveal_strlit("e");
        }
        "e"
    } else {
        proof {
            reveal_strlit("f");
        }
        "f"
    }
}

/// `h` in 16 lower-case hex digits, appended to `prefix`.
fn hex16_after(prefix: &str, h: u64) -> (res: String)
    ensures
        res@ == prefix@ + hex16(h),
{
    let mut out = owned(prefix);
    let mut i: u64 = 0;
    while i < 16
        invariant
            i <= 16,
            out@ == prefix@ + hex16(h).take(i as int),
        decreases 16 - i,
    {
        let shift: u64 = 60 - 4 * i;
        let nibble = (h >> shift) & 0xf;
        assert(nibble < 16) by (bit_vector)
            requires
                nibble == (h >> shift) & 0xf,
        ;
        out.append(hex_digit_str(nibble));
        assert(hex16(h).take(i + 1) =~= hex16(h).take(i as int).push(hex16(h)[i as int]));
        i += 1;
    }
    assert(hex16(h).take(16) =~= hex16(h));
    out
}

/// The identifier of the project scope of a path.
pub fn project_id(path: &str) -> (res: String)
    ensures
        res@ == project_scope_id(path@),
{
    let h = fnv1a_hash(path);
    hex16_after("proj_", h)
}

/// The name of a complexity tier, as stored with ratings.
pub open spec fn tier_name(tier: ComplexityTier) -> Seq<char> {
    match tier {
        ComplexityTier::Simple => "simple"@,
        ComplexityTier::Medium => "medium"@,
        ComplexityTier::Complex => "complex"@,
        ComplexityTier::Expert => "expert"@,
    }
}

/// The name of a complexity tier, as stored with ratings.
pub fn tier_str(tier: ComplexityTier) -> (res: &'static str)
    ensures
        res@ == tier_name(tier),
{
    match tier {
        ComplexityTier::Simple => "simple",
        ComplexityTier::Medium => "medium",
        ComplexityTier::Complex => "complex",
        ComplexityTier::Expert => "expert",
    }
}

/// Whether ranking is on: the session's choice when it made one, the
/// configuration's otherwise.
#[derive(Debug, Clone, Copy, PartialEq, Eq, Structural)]
pub struct RankingSwitch {
    pub config_enabled: bool,
    pub session_enabled: Option<bool>,
}

impl RankingSwitch {
    /// Whether ranking is on: the session's choice, or else the
    /// configuration's.
    pub open spec fn enabled(self) -> bool {
        match self.session_enabled {
            Some(b) => b,
            None => self.config_enabled,
        }
    }

    /// The switch once the session has turned ranking on or off.
    pub open spec fn after_session_choice(self, enabled: bool) -> RankingSwitch {
        RankingSwitch { session_enabled: Some(enabled), ..self }
    }

    /// A switch that follows the configuration until the session chooses.
    pub fn new(config_enabled: bool) -> (res: RankingSwitch)
        ensures
            res.config_enabled == config_enabled,
            res.session_enabled is None,
            res.enabled() == config_enabled,
    {
        RankingSwitch { config_enabled, session_enabled: None }
    }

    /// Whether ranking is on.
    pub fn is_enabled(&self) -> (res: bool)
        ensures
            res == self.enabled(),
    {
        match self.session_enabled {
            Some(b) => b,
            None => self.config_enabled,
        }
    }

    /// Turns ranking on or off for this session.
    pub fn set_session_enabled(&mut self, enabled: bool)
        ensures
            *final(self) == old(self).after_session_choice(enabled),
    {
        self.session_enabled = Some(enabled);
    }
}

/// Once the session turns ranking on or off, ranking is on exactly when it
/// was turned on, whatever the configuration says; and of two choices the
/// later one stands.
pub proof fn law_session_choice_wins(switch: RankingSwitch, first: bool, enabled: bool)
    ensures
        switch.after_session_choice(enabled).enabled() == enabled,
        switch.after_session_choice(first).after_session_choice(enabled)
            == switch.after_session_choice(enabled),
{
}

} // verus!
