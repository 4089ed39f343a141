//! Trait surface of a production rule system.
//!
//! Interfaces for facts, conditions, rules, working memory, conflict
//! resolution and the matching network. The matching engine itself is an
//! implementation detail that lives downstream; the agent core consumes
//! only matches. Rules fire actions that carry an effect classification.

use vstd::prelude::*;
use crate::effects::Effectful;

verus! {

/// A fact in working memory: a typed assertion about the world, immutable
/// once asserted; updates are expressed as retract plus re-assert.
pub trait Fact: Sized {
    /// Unique identifier of a fact instance, the key in working memory.
    type Id;

    /// The unique identifier of this fact.
    fn id(&self) -> &Self::Id;

    /// When this fact was asserted or last observed, in milliseconds since
    /// the epoch.
    fn timestamp(&self) -> i64;
}

/// A condition matching single facts: a left-hand-side atom of a rule. On
/// success it produces variable bindings for the rule's action generator.
pub trait Condition<F: Fact> {
    /// Variable bindings produced by a successful match.
    type Bindings;

    /// Test whether a fact satisfies this condition, producing bindings on
    /// success.
    fn matches(&self, fact: &F) -> Option<Self::Bindings>;

    /// Human-readable description for debugging and logging.
    fn description(&self) -> &str;
}

/// A production rule: conditions on the left, actions on the right. A rule
/// activates when all of its conditions are simultaneously satisfied; the
/// activated set is resolved by a [`ConflictStrategy`] before anything
/// fires.
pub trait Rule: Sized {
    /// The fact type this rule operates on.
    type Fact: Fact;

    /// The action type produced when the rule fires.
    type Action: Effectful;

    /// The bindings type produced by condition matching.
    type Bindings;

    /// The condition type this rule is built from.
    type Cond: Condition<Self::Fact, Bindings = Self::Bindings>;

    /// Stable unique identifier of this rule.
    fn id(&self) -> &str;

    /// The conditions that must all match for this rule to activate; an
    /// empty slice activates on every fact assertion.
    fn conditions(&self) -> &[Self::Cond];

    /// The actions to fire, parameterised by the match's bindings.
    fn actions(&self, bindings: &Self::Bindings) -> Vec<Self::Action>;

    /// Priority for conflict resolution; higher fires first.
    fn priority(&self) -> i32;

    /// Human-readable description of the rule's intent.
    fn description(&self) -> &str;
}

/// A match ready to fire: an activated rule with the bindings and facts
/// that produced it, awaiting conflict resolution.
pub struct RuleMatch<R: Rule> {
    /// The activated rule.
    pub rule: R,
    /// Variable bindings produced by condition matching.
    pub bindings: R::Bindings,
    /// Ids of the facts that caused this match.
    pub matched_facts: Vec<<R::Fact as Fact>::Id>,
    /// When this match was created, in milliseconds since the epoch.
    pub timestamp: i64,
}

/// Working memory: the agent's current belief set, keyed by fact id, and
/// the interface through which the matching network hears of changes.
pub trait WorkingMemory<F: Fact> {
    /// Assert a fact; a fact with the same id is replaced. Returns whether
    /// the fact was new rather than a replacement.
    fn assert_fact(&mut self, fact: F) -> bool;

    /// Retract a fact by id, returning it if it was present.
    fn retract_fact(&mut self, id: &F::Id) -> Option<F>;

    /// Whether a fact with the given id is present.
    fn contains(&self, id: &F::Id) -> bool;

    /// Look up a fact by id.
    fn get(&self, id: &F::Id) -> Option<&F>;

    /// The facts currently in memory.
    fn facts(&self) -> Vec<&F>;

    /// How many facts are in memory.
    fn len(&self) -> usize;

    /// Whether memory holds no facts.
    fn is_empty(&self) -> bool;
}

/// Conflict resolution: given every activated, unfired match, select at
/// most one to fire; `None` suspends firing this cycle.
pub trait ConflictStrategy<R: Rule> {
    /// Select the match to fire, if any.
    fn select<'a>(&self, matches: &'a [RuleMatch<R>]) -> Option<&'a RuleMatch<R>>;
}

/// The matching network: matches facts against rules incrementally as facts
/// are asserted and retracted, maintaining the activated set.
pub trait ReteNetwork<F: Fact, R: Rule<Fact = F>> {
    /// Add a rule; the network begins matching it against subsequently
    /// asserted facts.
    fn add_rule(&mut self, rule: R);

    /// Remove a rule by id, returning it if it existed; its matches leave
    /// the activated set.
    fn remove_rule(&mut self, rule_id: &str) -> Option<R>;

    /// Hear of an asserted fact; returns the newly activated matches.
    fn on_assert(&mut self, fact: &F) -> Vec<RuleMatch<R>>;

    /// Hear of a retracted fact; returns the matches no longer valid.
    fn on_retract(&mut self, fact_id: &F::Id) -> Vec<RuleMatch<R>>;

    /// The activated, ready-to-fire matches: the conflict set.
    fn activated(&self) -> &[RuleMatch<R>];
}

} // verus!
