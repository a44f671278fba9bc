//! The ranking commands of a session: /rate, /ratings, /reset-ratings and
//! /ranking, read into commands for the ranking engine or refused with a
//! usage message.

use vstd::prelude::*;
use crate::engine::analyzer::ComplexityTier;
use crate::engine::router::{spec_parse_model_id, ModelId};
use crate::engine::ranking::{tier_name, tier_str, RankingError};
use crate::engine::router::spec_render_model_id;
use crate::text::{concat, decimal, decimal_text, is_white_space, owned, parse_u64, spec_parse_u64, split_whitespace, str_eq, views, words};

verus! {

/// What a ranking command asks of the ranking engine.
#[derive(Debug)]
pub enum RankingCommand {
    /// Rate the last response.
    RateLast(u32),
    /// Rate a model by hand.
    RateModel(ModelId, u32),
    /// Show the rankings of a tier, or of the last prompt's tier.
    ShowRatings(Option<ComplexityTier>),
    /// Delete ratings: all of them, or those of the current scope.
    ResetRatings { global: bool },
    /// Turn ranking on or off for the session.
    SetEnabled(bool),
    /// Report whether ranking is on.
    Status,
}

/// A ranking command, with the model it names as text.
pub enum RankingCommandView {
    RateLast(u32),
    RateModel((Seq<char>, Seq<char>), u32),
    ShowRatings(Option<ComplexityTier>),
    ResetRatings(bool),
    SetEnabled(bool),
    Status,
}

impl View for RankingCommand {
    type V = RankingCommandView;

    open spec fn view(&self) -> RankingCommandView {
        match *self {
            RankingCommand::RateLast(r) => RankingCommandView::RateLast(r),
            RankingCommand::RateModel(m, r) => RankingCommandView::RateModel(m@, r),
            RankingCommand::ShowRatings(t) => RankingCommandView::ShowRatings(t),
            RankingCommand::ResetRatings { global } => RankingCommandView::ResetRatings(global),
            RankingCommand::SetEnabled(b) => RankingCommandView::SetEnabled(b),
            RankingCommand::Status => RankingCommandView::Status,
        }
    }
}

/// How /rate is used.
pub open spec fn rate_usage() -> Seq<char> {
    "Usage: /rate [1-5] or /rate <provider/model> [1-5]"@
}

/// A rating argument: a number from 1 to 5; a number outside that range is
/// an invalid rating, anything else a usage error.
pub open spec fn rating_word(w: Seq<char>) -> Result<u32, Seq<char>> {
    match spec_parse_u64(w) {
        Some(n) => if 1 <= n <= 5 {
            Ok(n as u32)
        } else {
            Err("invalid rating: "@ + decimal_text(n as nat) + " (must be 1-5)"@)
        },
        None => Err(rate_usage()),
    }
}

/// The tier a name stands for, as ratings store it.
pub open spec fn tier_of_name(w: Seq<char>) -> Option<ComplexityTier> {
    if w == "simple"@ {
        Some(ComplexityTier::Simple)
    } else if w == "medium"@ {
        Some(ComplexityTier::Medium)
    } else if w == "complex"@ {
        Some(ComplexityTier::Complex)
    } else if w == "expert"@ {
        Some(ComplexityTier::Expert)
    } else {
        None
    }
}

/// What a slash command with arguments `args` is as a ranking command:
/// nothing when `cmd` is not one; otherwise the command, or the error text
/// that refuses its arguments (which are read as white-space separated
/// words).
pub open spec fn ranking_command(cmd: Seq<char>, args: Seq<char>) -> Option<
    Result<RankingCommandView, Seq<char>>,
> {
    let ws = words(args);
    if cmd == "rate"@ {
        Some(
            if ws.len() == 1 {
                match rating_word(ws[0]) {
                    Ok(r) => Ok(RankingCommandView::RateLast(r)),
                    Err(e) => Err(e),
                }
            } else if ws.len() == 2 {
                match spec_parse_model_id(ws[0]) {
                    None => Err("Invalid model ID: '"@ + ws[0] + "' (expected 'provider/model')"@),
                    Some(id) => match rating_word(ws[1]) {
                        Ok(r) => Ok(RankingCommandView::RateModel(id, r)),
                        Err(e) => Err(e),
                    },
                }
            } else {
                Err(rate_usage())
            },
        )
    } else if cmd == "ratings"@ {
        Some(
            if ws.len() == 0 {
                Ok(RankingCommandView::ShowRatings(None))
            } else if ws.len() == 1 && tier_of_name(ws[0]) is Some {
                Ok(RankingCommandView::ShowRatings(tier_of_name(ws[0])))
            } else {
                Err("Usage: /ratings [simple|medium|complex|expert]"@)
            },
        )
    } else if cmd == "reset-ratings"@ {
        Some(
            if ws.len() == 0 {
                Ok(RankingCommandView::ResetRatings(false))
            } else if ws.len() == 1 && ws[0] == "global"@ {
                Ok(RankingCommandView::ResetRatings(true))
            } else {
                Err("Usage: /reset-ratings [global]"@)
            },
        )
    } else if cmd == "ranking"@ {
        Some(
            if ws.len() == 1 && ws[0] == "on"@ {
                Ok(RankingCommandView::SetEnabled(true))
            } else if ws.len() == 1 && ws[0] == "off"@ {
                Ok(RankingCommandView::SetEnabled(false))
            } else if ws.len() == 0 || (ws.len() == 1 && ws[0] == "status"@) {
                Ok(RankingCommandView::Status)
            } else {
                Err("Usage: /ranking on|off|status"@)
            },
        )
    } else {
        None
    }
}

fn rating_arg(w: &str) -> (res: Result<u32, String>)
    ensures
        match res {
            Ok(r) => rating_word(w@) == Ok::<u32, Seq<char>>(r),
            Err(t) => rating_word(w@) == Err::<u32, Seq<char>>(t@),
        },
{
    match parse_u64(w) {
        Some(n) => if 1 <= n && n <= 5 {
            Ok(n as u32)
        } else {
            let d = decimal(n);
            let mut t = concat("invalid rating: ", d.as_str());
            t.append(" (must be 1-5)");
            Err(t)
        },
        None => Err(owned("Usage: /rate [1-5] or /rate <provider/model> [1-5]")),
    }
}

fn tier_from_name(w: &str) -> (res: Option<ComplexityTier>)
    ensures
        res == tier_of_name(w@),
{
    if str_eq(w, "simple") {
        Some(ComplexityTier::Simple)
    } else if str_eq(w, "medium") {
        Some(ComplexityTier::Medium)
    } else if str_eq(w, "complex") {
        Some(ComplexityTier::Complex)
    } else if str_eq(w, "expert") {
        Some(ComplexityTier::Expert)
    } else {
        None
    }
}

/// Reads a slash command as a ranking command (see `ranking_command`).
pub fn parse_ranking_command(cmd: &str, args: &str) -> (res: Option<Result<RankingCommand, String>>)
    ensures
        match res {
            None => ranking_command(cmd@, args@) is None,
            Some(Ok(c)) => ranking_command(cmd@, args@) == Some(Ok::<RankingCommandView, Seq<char>>(c@)),
            Some(Err(t)) => ranking_command(cmd@, args@) == Some(Err::<RankingCommandView, Seq<char>>(t@)),
        },
{
    let ws = split_whitespace(args);
    let ghost wv = views(ws@);
    assert(wv.len() == ws@.len());
    if str_eq(cmd, "rate") {
        if ws.len() == 1 {
            assert(wv[0] == ws@[0]@);
            return Some(
                match rating_arg(ws[0].as_str()) {
                    Ok(r) => Ok(RankingCommand::RateLast(r)),
                    Err(e) => Err(e),
                },
            );
        } else if ws.len() == 2 {
            assert(wv[0] == ws@[0]@ && wv[1] == ws@[1]@);
            return Some(
                match ModelId::parse(ws[0].as_str()) {
                    None => {
                        let mut t = concat("Invalid model ID: '", ws[0].as_str());
                        t.append("' (expected 'provider/model')");
                        Err(t)
                    },
                    Some(id) => match rating_arg(ws[1].as_str()) {
                        Ok(r) => Ok(RankingCommand::RateModel(id, r)),
                        Err(e) => Err(e),
                    },
                },
            );
        } else {
            return Some(Err(owned("Usage: /rate [1-5] or /rate <provider/model> [1-5]")));
        }
    }
    proof {
        reveal_strlit("rate");
        reveal_strlit("ratings");
        reveal_strlit("reset-ratings");
        reveal_strlit("ranking");
        assert("rate"@.len() != "ratings"@.len() && "rate"@.len() != "reset-ratings"@.len());
        assert("rate"@[2] != "ranking"@[2]);
        assert("ratings"@[1] != "reset-ratings"@[1] && "ratings"@[2] != "ranking"@[2]);
        assert("reset-ratings"@[1] != "ranking"@[1]);
    }
    if str_eq(cmd, "ratings") {
        if ws.len() == 0 {
            return Some(Ok(RankingCommand::ShowRatings(None)));
        }
        if ws.len() == 1 {
            assert(wv[0] == ws@[0]@);
            match tier_from_name(ws[0].as_str()) {
                Some(t) => {
                    return Some(Ok(RankingCommand::ShowRatings(Some(t))));
                },
                None => {},
            }
        }
        return Some(Err(owned("Usage: /ratings [simple|medium|complex|expert]")));
    }
    if str_eq(cmd, "reset-ratings") {
        if ws.len() == 0 {
            return Some(Ok(RankingCommand::ResetRatings { global: false }));
        }
        if ws.len() == 1 && str_eq(ws[0].as_str(), "global") {
            assert(wv[0] == ws@[0]@);
            return Some(Ok(RankingCommand::ResetRatings { global: true }));
        }
        assert(ws.len() == 1 ==> wv[0] == ws@[0]@);
        return Some(Err(owned("Usage: /reset-ratings [global]")));
    }
    if str_eq(cmd, "ranking") {
        if ws.len() == 0 {
            return Some(Ok(RankingCommand::Status));
        }
        if ws.len() == 1 {
            assert(wv[0] == ws@[0]@);
            proof {
                reveal_strlit("on");
                reveal_strlit("off");
                reveal_strlit("status");
                assert("on"@.len() != "off"@.len() && "on"@.len() != "status"@.len()
                    && "off"@.len() != "status"@.len());
            }
            if str_eq(ws[0].as_str(), "on") {
                return Some(Ok(RankingCommand::SetEnabled(true)));
            }
            if str_eq(ws[0].as_str(), "off") {
                return Some(Ok(RankingCommand::SetEnabled(false)));
            }
            if str_eq(ws[0].as_str(), "status") {
                return Some(Ok(RankingCommand::Status));
            }
        }
        return Some(Err(owned("Usage: /ranking on|off|status")));
    }
    None
}

/// The answer to /ranking on or off.
pub fn switch_reply(enabled: bool) -> (res: String)
    ensures
        res@ == (if enabled {
            "Ranking enabled for this session."@
        } else {
            "Ranking disabled for this session."@
        }),
{
    if enabled {
        owned("Ranking enabled for this session.")
    } else {
        owned("Ranking disabled for this session.")
    }
}

/// The answer to /ranking status: whether ranking is on, and the scope of
/// the ratings.
pub fn status_reply(enabled: bool, global: bool) -> (res: String)
    ensures
        res@ == "Ranking is "@ + (if enabled {
            "enabled"@
        } else {
            "disabled"@
        }) + " (scope: "@ + (if global {
            "global"@
        } else {
            "project"@
        }) + ")."@,
{
    let mut out = owned("Ranking is ");
    out.append(if enabled { "enabled" } else { "disabled" });
    out.append(" (scope: ");
    out.append(if global { "global" } else { "project" });
    out.append(").");
    out
}

/// The answer to /reset-ratings: how many ratings were deleted, and from
/// which scope.
pub fn reset_reply(deleted: u64, global: bool) -> (res: String)
    ensures
        res@ == "Reset "@ + decimal_text(deleted as nat) + " ratings ("@ + (if global {
            "all scopes"@
        } else {
            "this scope"@
        }) + ")."@,
{
    let n = decimal(deleted);
    let mut out = concat("Reset ", n.as_str());
    out.append(" ratings (");
    out.append(if global { "all scopes" } else { "this scope" });
    out.append(").");
    out
}

/// The answer to /ratings for a tier without ratings.
pub fn no_ratings_reply(tier: ComplexityTier) -> (res: String)
    ensures
        res@ == "No ratings yet for "@ + tier_name(tier) + " prompts."@,
{
    let mut out = concat("No ratings yet for ", tier_str(tier));
    out.append(" prompts.");
    out
}

/// The answer to a rating: the model, the rating out of 5, and the tier it
/// counts for.
pub fn rated_reply(model: &ModelId, rating: u32, tier: ComplexityTier) -> (res: String)
    ensures
        res@ == "Rated "@ + spec_render_model_id(model@) + " "@ + decimal_text(rating as nat) + "/5 for "@
            + tier_name(tier) + " prompts."@,
{
    let m = model.as_str();
    let mut out = concat("Rated ", m.as_str());
    out.append(" ");
    let r = decimal(rating as u64);
    out.append(r.as_str());
    out.append("/5 for ");
    out.append(tier_str(tier));
    out.append(" prompts.");
    out
}

/// The tier that /ratings shows: the one asked for, else the last prompt's,
/// else the medium tier.
pub fn ratings_tier(requested: Option<ComplexityTier>, last: Option<ComplexityTier>) -> (res:
    ComplexityTier)
    ensures
        res == match requested {
            Some(t) => t,
            None => match last {
                Some(t) => t,
                None => ComplexityTier::Medium,
            },
        },
{
    match requested {
        Some(t) => t,
        None => match last {
            Some(t) => t,
            None => ComplexityTier::Medium,
        },
    }
}

/// The tier a rating counts for: the last prompt's; before any prompt there
/// is no response to rate.
pub fn rating_tier(last: Option<ComplexityTier>) -> (res: Result<ComplexityTier, RankingError>)
    ensures
        match last {
            Some(t) => res matches Ok(r) && r == t,
            None => res matches Err(RankingError::NoLastResponse),
        },
{
    match last {
        Some(t) => Ok(t),
        None => Err(RankingError::NoLastResponse),
    }
}

/// A word with no white space in it is read as that one word.
proof fn lemma_single_word(w: Seq<char>)
    requires
        w.len() > 0,
        forall|i: int| 0 <= i < w.len() ==> !is_white_space(#[trigger] w[i]),
    ensures
        words(w) == seq![w],
    decreases w.len(),
{
    if w.len() == 1 {
        assert(words(w.drop_last()) =~= Seq::<Seq<char>>::empty());
        assert(seq![w.last()] =~= w);
    } else {
        let init = w.drop_last();
        assert forall|i: int| 0 <= i < init.len() implies !is_white_space(#[trigger] init[i]) by {
            assert(init[i] == w[i]);
        }
        lemma_single_word(init);
        assert(!is_white_space(w[w.len() - 2]));
        assert(init.push(w.last()) =~= w);
    }
}

/// Tier names read back to their tier: the name of every tier is read as
/// that tier, and `/ratings` with that name shows that tier's rankings.
pub proof fn law_tier_names_read_back(t: ComplexityTier)
    ensures
        tier_of_name(tier_name(t)) == Some(t),
        ranking_command("ratings"@, tier_name(t)) == Some(
            Ok::<RankingCommandView, Seq<char>>(RankingCommandView::ShowRatings(Some(t))),
        ),
{
    reveal_strlit("simple");
    reveal_strlit("medium");
    reveal_strlit("complex");
    reveal_strlit("expert");
    reveal_strlit("ratings");
    reveal_strlit("rate");
    let n = tier_name(t);
    assert(n.len() > 0);
    assert forall|i: int| 0 <= i < n.len() implies !is_white_space(#[trigger] n[i]) by {
        assert(0x61 <= n[i] as u32 <= 0x7a);
    }
    lemma_single_word(n);
    assert("ratings"@.len() != "rate"@.len());
}

} // verus!
