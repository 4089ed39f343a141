//! The effect algebra.
//!
//! Every action is classified by the severity of its side effects, from
//! `Pure` (none) up to `Irreversible` (a commitment point). The recovery
//! policy, the planner's backtracking freedom and the planning cost are all
//! derived from the classification.

use vstd::prelude::*;

verus! {

use vstd::string::StringExecFns;

/// Effect classification for operations, ordered by increasing severity of
/// side effects.
#[derive(Clone, Copy, Debug, PartialEq, Eq, Hash, Structural)]
pub enum Effect {
    /// No side effects: safe to retry, reorder or cache.
    Pure,
    /// Reads external state: idempotent, though results may differ.
    Observe,
    /// Changes external state: can be undone via compensation.
    Mutate,
    /// Cannot be undone: a commitment point.
    Irreversible,
}

/// Recovery strategy after a failure, derived from the effect.
#[derive(Clone, Copy, Debug, PartialEq, Eq, Structural)]
pub enum Recovery {
    /// Safe to re-execute.
    Retry,
    /// Verify external state before retrying.
    CheckAndRetry,
    /// Requires human review.
    ManualReview,
}

/// The recovery policy an effect calls for.
pub open spec fn spec_recovery(e: Effect) -> Recovery {
    match e {
        Effect::Pure => Recovery::Retry,
        Effect::Observe => Recovery::Retry,
        Effect::Mutate => Recovery::CheckAndRetry,
        Effect::Irreversible => Recovery::ManualReview,
    }
}

/// Whether the planner may backtrack past the effect.
pub open spec fn spec_backtrackable(e: Effect) -> bool {
    e != Effect::Irreversible
}

/// Planning cost of the effect.
pub open spec fn spec_cost_weight(e: Effect) -> u32 {
    match e {
        Effect::Pure => 1,
        Effect::Observe => 2,
        Effect::Mutate => 10,
        Effect::Irreversible => 100,
    }
}

/// The name of the effect's variant, as stored in event details.
pub open spec fn spec_effect_name(e: Effect) -> Seq<char> {
    match e {
        Effect::Pure => "Pure"@,
        Effect::Observe => "Observe"@,
        Effect::Mutate => "Mutate"@,
        Effect::Irreversible => "Irreversible"@,
    }
}

impl Effect {
    /// Derive the recovery strategy from the effect.
    pub fn recovery(&self) -> (r: Recovery)
        ensures
            r == spec_recovery(*self),
    {
        match self {
            Effect::Pure => Recovery::Retry,
            Effect::Observe => Recovery::Retry,
            Effect::Mutate => Recovery::CheckAndRetry,
            Effect::Irreversible => Recovery::ManualReview,
        }
    }

    /// Can the planner safely backtrack past this effect?
    pub fn backtrackable(&self) -> (r: bool)
        ensures
            r == spec_backtrackable(*self),
    {
        match self {
            Effect::Irreversible => false,
            _ => true,
        }
    }

    /// Cost multiplier for planning: plans with fewer severe effects win.
    pub fn cost_weight(&self) -> (r: u32)
        ensures
            r == spec_cost_weight(*self),
    {
        match self {
            Effect::Pure => 1,
            Effect::Observe => 2,
            Effect::Mutate => 10,
            Effect::Irreversible => 100,
        }
    }

    /// The variant's name, as stored in event details.
    pub fn name_string(&self) -> (r: String)
        ensures
            r@ == spec_effect_name(*self),
    {
        match self {
            Effect::Pure => String::from_str("Pure"),
            Effect::Observe => String::from_str("Observe"),
            Effect::Mutate => String::from_str("Mutate"),
            Effect::Irreversible => String::from_str("Irreversible"),
        }
    }
}

/// The effect whose variant bears the given name, if any: the inverse of
/// [`spec_effect_name`].
pub open spec fn spec_effect_of_name(s: Seq<char>) -> Option<Effect> {
    if s == "Pure"@ {
        Some(Effect::Pure)
    } else if s == "Observe"@ {
        Some(Effect::Observe)
    } else if s == "Mutate"@ {
        Some(Effect::Mutate)
    } else if s == "Irreversible"@ {
        Some(Effect::Irreversible)
    } else {
        None
    }
}

/// Decode an effect from its variant name.
pub fn effect_of_name(s: &str) -> (r: Option<Effect>)
    ensures
        r == spec_effect_of_name(s@),
{
    if crate::strutil::str_eq(s, "Pure") {
        Some(Effect::Pure)
    } else if crate::strutil::str_eq(s, "Observe") {
        Some(Effect::Observe)
    } else if crate::strutil::str_eq(s, "Mutate") {
        Some(Effect::Mutate)
    } else if crate::strutil::str_eq(s, "Irreversible") {
        Some(Effect::Irreversible)
    } else {
        None
    }
}

/// Encoding an effect as its variant name and decoding it again is the
/// identity, so the stored form of an effect loses nothing.
pub proof fn lemma_effect_name_round_trip()
    ensures
        forall|e: Effect| spec_effect_of_name(spec_effect_name(e)) == Some(e),
{
    assert forall|e: Effect| spec_effect_of_name(spec_effect_name(e)) == Some(e) by {
        reveal_strlit("Pure");
        reveal_strlit("Observe");
        reveal_strlit("Mutate");
        reveal_strlit("Irreversible");
        assert("Pure"@.len() == 4);
        assert("Observe"@.len() == 7);
        assert("Mutate"@.len() == 6);
        assert("Irreversible"@.len() == 12);
    }
}

/// Planning cost rises strictly with effect severity, and backtracking is
/// forfeited exactly by an irreversible effect.
pub proof fn lemma_effect_cost_ordering()
    ensures
        spec_cost_weight(Effect::Pure) < spec_cost_weight(Effect::Observe),
        spec_cost_weight(Effect::Observe) < spec_cost_weight(Effect::Mutate),
        spec_cost_weight(Effect::Mutate) < spec_cost_weight(Effect::Irreversible),
        forall|e: Effect| spec_backtrackable(e) <==> e != Effect::Irreversible,
{
}

/// Any operation with a classified effect.
pub trait Effectful {
    fn effect(&self) -> Effect;
}

/// Metadata wrapping an action with its effect classification for the
/// planner.
#[derive(Clone, Debug)]
pub struct ActionMeta<A> {
    pub action: A,
    pub effect: Effect,
    pub name: String,
    pub description: String,
}

} // verus!
