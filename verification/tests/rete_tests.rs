use std::collections::{HashMap, HashSet};

use rig_bdi::effects::{Effect, Effectful};
use rig_bdi::rete::{Condition, ConflictStrategy, Fact, ReteNetwork, Rule, RuleMatch, WorkingMemory};

#[derive(Clone, Eq, PartialEq, Hash, Debug)]
struct TestFact {
    id: u32,
    value: String,
    ts: i64,
}

impl Fact for TestFact {
    type Id = u32;

    fn id(&self) -> &u32 {
        &self.id
    }

    fn timestamp(&self) -> i64 {
        self.ts
    }
}

fn make_fact(id: u32, value: &str) -> TestFact {
    TestFact { id, value: String::from(value), ts: 1_700_000_000_000 }
}

#[derive(Clone, Debug)]
struct EmptyBindings;

struct AlwaysMatchCond;

impl Condition<TestFact> for AlwaysMatchCond {
    type Bindings = EmptyBindings;

    fn matches(&self, _fact: &TestFact) -> Option<EmptyBindings> {
        Some(EmptyBindings)
    }

    fn description(&self) -> &str {
        "always matches"
    }
}

struct NeverMatchCond;

impl Condition<TestFact> for NeverMatchCond {
    type Bindings = EmptyBindings;

    fn matches(&self, _fact: &TestFact) -> Option<EmptyBindings> {
        None
    }

    fn description(&self) -> &str {
        "never matches"
    }
}

struct ValueMatchCond(String);

impl Condition<TestFact> for ValueMatchCond {
    type Bindings = EmptyBindings;

    fn matches(&self, fact: &TestFact) -> Option<EmptyBindings> {
        if fact.value == self.0 {
            Some(EmptyBindings)
        } else {
            None
        }
    }

    fn description(&self) -> &str {
        "matches specific value"
    }
}

// One rule can hold differently behaved conditions through this wrapper.
enum AnyCond {
    Always(AlwaysMatchCond),
    Never(NeverMatchCond),
    Value(ValueMatchCond),
}

impl Condition<TestFact> for AnyCond {
    type Bindings = EmptyBindings;

    fn matches(&self, fact: &TestFact) -> Option<EmptyBindings> {
        match self {
            AnyCond::Always(c) => c.matches(fact),
            AnyCond::Never(c) => c.matches(fact),
            AnyCond::Value(c) => c.matches(fact),
        }
    }

    fn description(&self) -> &str {
        match self {
            AnyCond::Always(c) => c.description(),
            AnyCond::Never(c) => c.description(),
            AnyCond::Value(c) => c.description(),
        }
    }
}

#[derive(Clone, Debug, PartialEq)]
struct NoopAction;

impl Effectful for NoopAction {
    fn effect(&self) -> Effect {
        Effect::Pure
    }
}

struct TestRule {
    id: String,
    priority: i32,
    conditions: Vec<AnyCond>,
}

impl Rule for TestRule {
    type Fact = TestFact;
    type Action = NoopAction;
    type Bindings = EmptyBindings;
    type Cond = AnyCond;

    fn id(&self) -> &str {
        &self.id
    }

    fn conditions(&self) -> &[AnyCond] {
        &self.conditions
    }

    fn actions(&self, _bindings: &EmptyBindings) -> Vec<NoopAction> {
        vec![NoopAction]
    }

    fn priority(&self) -> i32 {
        self.priority
    }

    fn description(&self) -> &str {
        "test rule"
    }
}

#[derive(Clone, Debug)]
struct SimpleRule {
    id: String,
    priority: i32,
}

impl Rule for SimpleRule {
    type Fact = TestFact;
    type Action = NoopAction;
    type Bindings = EmptyBindings;
    type Cond = AnyCond;

    fn id(&self) -> &str {
        &self.id
    }

    fn conditions(&self) -> &[AnyCond] {
        &[]
    }

    fn actions(&self, _bindings: &EmptyBindings) -> Vec<NoopAction> {
        vec![NoopAction]
    }

    fn priority(&self) -> i32 {
        self.priority
    }

    fn description(&self) -> &str {
        "simple rule"
    }
}

#[derive(Default)]
struct MockWorkingMemory {
    facts: HashMap<u32, TestFact>,
}

impl WorkingMemory<TestFact> for MockWorkingMemory {
    fn assert_fact(&mut self, fact: TestFact) -> bool {
        let id = *fact.id();
        self.facts.insert(id, fact).is_none()
    }

    fn retract_fact(&mut self, id: &u32) -> Option<TestFact> {
        self.facts.remove(id)
    }

    fn contains(&self, id: &u32) -> bool {
        self.facts.contains_key(id)
    }

    fn get(&self, id: &u32) -> Option<&TestFact> {
        self.facts.get(id)
    }

    fn facts(&self) -> Vec<&TestFact> {
        self.facts.values().collect()
    }

    fn len(&self) -> usize {
        self.facts.len()
    }

    fn is_empty(&self) -> bool {
        self.facts.is_empty()
    }
}

struct PriorityStrategy;

impl ConflictStrategy<SimpleRule> for PriorityStrategy {
    fn select<'a>(&self, matches: &'a [RuleMatch<SimpleRule>]) -> Option<&'a RuleMatch<SimpleRule>> {
        matches.iter().max_by_key(|m| m.rule.priority())
    }
}

#[derive(Default)]
struct MockReteNetwork {
    rules: Vec<SimpleRule>,
    activated: Vec<RuleMatch<SimpleRule>>,
}

impl ReteNetwork<TestFact, SimpleRule> for MockReteNetwork {
    fn add_rule(&mut self, rule: SimpleRule) {
        self.rules.push(rule);
    }

    fn remove_rule(&mut self, rule_id: &str) -> Option<SimpleRule> {
        if let Some(pos) = self.rules.iter().position(|r| r.id() == rule_id) {
            self.activated.retain(|m| m.rule.id() != rule_id);
            Some(self.rules.remove(pos))
        } else {
            None
        }
    }

    fn on_assert(&mut self, fact: &TestFact) -> Vec<RuleMatch<SimpleRule>> {
        let ts = fact.timestamp();
        let fact_id = *fact.id();

        let new_matches: Vec<RuleMatch<SimpleRule>> = self
            .rules
            .iter()
            .map(|rule| RuleMatch {
                rule: rule.clone(),
                bindings: EmptyBindings,
                matched_facts: vec![fact_id],
                timestamp: ts,
            })
            .collect();

        for m in &new_matches {
            self.activated.push(RuleMatch {
                rule: m.rule.clone(),
                bindings: EmptyBindings,
                matched_facts: m.matched_facts.clone(),
                timestamp: m.timestamp,
            });
        }

        new_matches
    }

    fn on_retract(&mut self, fact_id: &u32) -> Vec<RuleMatch<SimpleRule>> {
        let removed: Vec<RuleMatch<SimpleRule>> = self
            .activated
            .iter()
            .filter(|m| m.matched_facts.contains(fact_id))
            .map(|m| RuleMatch {
                rule: m.rule.clone(),
                bindings: EmptyBindings,
                matched_facts: m.matched_facts.clone(),
                timestamp: m.timestamp,
            })
            .collect();

        self.activated.retain(|m| !m.matched_facts.contains(fact_id));

        removed
    }

    fn activated(&self) -> &[RuleMatch<SimpleRule>] {
        &self.activated
    }
}

#[test]
fn fact_id_returns_correct_id() {
    let f = make_fact(42, "hello");
    assert_eq!(*f.id(), 42);
}

#[test]
fn fact_timestamp_round_trips() {
    let ts = 1_699_999_999_999;
    let f = TestFact { id: 1, value: String::from("x"), ts };
    assert_eq!(f.timestamp(), ts);
}

#[test]
fn fact_satisfies_required_supertraits() {
    let f = make_fact(1, "a");
    let f2 = f.clone();
    assert_eq!(f, f2);

    let mut set = HashSet::new();
    set.insert(f.clone());
    assert!(set.contains(&f2));

    // Debug must not panic.
    let _ = format!("{:?}", f);
}

#[test]
fn always_match_condition_matches_any_fact() {
    let cond = AlwaysMatchCond;
    assert!(cond.matches(&make_fact(1, "anything")).is_some());
    assert!(cond.matches(&make_fact(99, "")).is_some());
}

#[test]
fn never_match_condition_rejects_all_facts() {
    let cond = NeverMatchCond;
    assert!(cond.matches(&make_fact(1, "anything")).is_none());
}

#[test]
fn value_condition_matches_only_expected_value() {
    let cond = ValueMatchCond(String::from("critical"));
    assert!(cond.matches(&make_fact(1, "critical")).is_some());
    assert!(cond.matches(&make_fact(2, "warning")).is_none());
}

#[test]
fn condition_description_is_non_empty() {
    assert!(!AlwaysMatchCond.description().is_empty());
    assert!(!NeverMatchCond.description().is_empty());
    assert!(!ValueMatchCond(String::from("x")).description().is_empty());
}

#[test]
fn rule_id_priority_description_are_correct() {
    let rule = TestRule {
        id: String::from("pod-restart-rule"),
        priority: 10,
        conditions: vec![],
    };
    assert_eq!(rule.id(), "pod-restart-rule");
    assert_eq!(rule.priority(), 10);
    assert_eq!(rule.description(), "test rule");
}

#[test]
fn rule_conditions_slice_has_correct_length_and_descriptions() {
    let rule = TestRule {
        id: String::from("r"),
        priority: 0,
        conditions: vec![
            AnyCond::Always(AlwaysMatchCond),
            AnyCond::Value(ValueMatchCond(String::from("foo"))),
        ],
    };
    assert_eq!(rule.conditions().len(), 2);
    assert_eq!(rule.conditions()[0].description(), "always matches");
    assert_eq!(rule.conditions()[1].description(), "matches specific value");
}

#[test]
fn rule_empty_conditions_returns_empty_slice() {
    let rule = SimpleRule { id: String::from("unconditional"), priority: 1 };
    assert!(rule.conditions().is_empty());
}

#[test]
fn rule_actions_returns_correct_actions() {
    let rule = TestRule { id: String::from("r"), priority: 0, conditions: vec![] };
    let actions = rule.actions(&EmptyBindings);
    assert_eq!(actions.len(), 1);
    assert_eq!(actions[0], NoopAction);
}

#[test]
fn rule_match_stores_all_fields() {
    let rule = SimpleRule { id: String::from("rule-1"), priority: 5 };
    let ts = 1_700_000_000_000;
    let rm = RuleMatch {
        rule: rule.clone(),
        bindings: EmptyBindings,
        matched_facts: vec![1u32, 2u32],
        timestamp: ts,
    };

    assert_eq!(rm.rule.id(), "rule-1");
    assert_eq!(rm.rule.priority(), 5);
    assert_eq!(rm.matched_facts, vec![1, 2]);
    assert_eq!(rm.timestamp, ts);
}

#[test]
fn assert_fact_returns_true_for_new_fact() {
    let mut mem = MockWorkingMemory::default();
    assert!(mem.assert_fact(make_fact(1, "a")));
}

#[test]
fn assert_fact_returns_false_for_duplicate_id() {
    let mut mem = MockWorkingMemory::default();
    mem.assert_fact(make_fact(1, "a"));
    assert!(!mem.assert_fact(make_fact(1, "b")));
}

#[test]
fn assert_fact_replaces_value_for_existing_id() {
    let mut mem = MockWorkingMemory::default();
    mem.assert_fact(make_fact(1, "original"));
    mem.assert_fact(make_fact(1, "updated"));
    assert_eq!(mem.get(&1).unwrap().value, "updated");
}

#[test]
fn retract_fact_removes_and_returns_it() {
    let mut mem = MockWorkingMemory::default();
    mem.assert_fact(make_fact(1, "hello"));

    assert!(mem.contains(&1));
    let removed = mem.retract_fact(&1);
    assert!(removed.is_some());
    assert_eq!(removed.unwrap().value, "hello");
    assert!(!mem.contains(&1));
}

#[test]
fn retract_fact_returns_none_for_missing_id() {
    let mut mem = MockWorkingMemory::default();
    assert!(mem.retract_fact(&99).is_none());
}

#[test]
fn contains_and_get_work_correctly() {
    let mut mem = MockWorkingMemory::default();
    mem.assert_fact(make_fact(7, "data"));

    assert!(mem.contains(&7));
    assert!(!mem.contains(&8));
    assert_eq!(mem.get(&7).unwrap().value, "data");
    assert!(mem.get(&8).is_none());
}

#[test]
fn len_and_is_empty_reflect_current_state() {
    let mut mem = MockWorkingMemory::default();
    assert!(mem.is_empty());
    assert_eq!(mem.len(), 0);

    mem.assert_fact(make_fact(1, "a"));
    assert!(!mem.is_empty());
    assert_eq!(mem.len(), 1);

    mem.assert_fact(make_fact(2, "b"));
    assert_eq!(mem.len(), 2);

    mem.retract_fact(&1);
    assert_eq!(mem.len(), 1);
}

#[test]
fn facts_iterator_yields_all_facts() {
    let mut mem = MockWorkingMemory::default();
    mem.assert_fact(make_fact(1, "a"));
    mem.assert_fact(make_fact(2, "b"));
    mem.assert_fact(make_fact(3, "c"));

    let mut ids: Vec<u32> = mem.facts().iter().map(|f| *f.id()).collect();
    ids.sort_unstable();
    assert_eq!(ids, vec![1, 2, 3]);
}

#[test]
fn facts_iterator_is_empty_when_memory_is_empty() {
    let mem = MockWorkingMemory::default();
    assert_eq!(mem.facts().len(), 0);
}

fn make_match(id: &str, priority: i32) -> RuleMatch<SimpleRule> {
    RuleMatch {
        rule: SimpleRule { id: String::from(id), priority },
        bindings: EmptyBindings,
        matched_facts: vec![],
        timestamp: 1_700_000_000_000,
    }
}

#[test]
fn priority_strategy_selects_highest_priority() {
    let matches = vec![
        make_match("low", 1),
        make_match("high", 100),
        make_match("mid", 50),
    ];

    let selected = PriorityStrategy.select(&matches).unwrap();
    assert_eq!(selected.rule.id(), "high");
}

#[test]
fn priority_strategy_returns_none_for_empty_conflict_set() {
    assert!(PriorityStrategy.select(&[]).is_none());
}

#[test]
fn priority_strategy_single_match_is_always_selected() {
    let matches = vec![make_match("only", 42)];
    assert_eq!(PriorityStrategy.select(&matches).unwrap().rule.id(), "only");
}

#[test]
fn rete_network_starts_with_no_activated_matches() {
    let net = MockReteNetwork::default();
    assert!(net.activated().is_empty());
}

#[test]
fn rete_network_add_and_remove_rules() {
    let mut net = MockReteNetwork::default();
    net.add_rule(SimpleRule { id: String::from("r1"), priority: 1 });
    net.add_rule(SimpleRule { id: String::from("r2"), priority: 2 });

    let removed = net.remove_rule("r1");
    assert!(removed.is_some());
    assert_eq!(removed.unwrap().id(), "r1");

    assert!(net.remove_rule("nonexistent").is_none());
}

#[test]
fn rete_network_on_assert_activates_all_unconditional_rules() {
    let mut net = MockReteNetwork::default();
    net.add_rule(SimpleRule { id: String::from("r1"), priority: 1 });
    net.add_rule(SimpleRule { id: String::from("r2"), priority: 2 });

    let new_matches = net.on_assert(&make_fact(1, "alert"));

    assert_eq!(new_matches.len(), 2, "both rules should activate");
    assert_eq!(net.activated().len(), 2);
}

#[test]
fn rete_network_on_assert_records_matched_fact_id() {
    let mut net = MockReteNetwork::default();
    net.add_rule(SimpleRule { id: String::from("r1"), priority: 0 });

    let new_matches = net.on_assert(&make_fact(42, "x"));
    assert_eq!(new_matches[0].matched_facts, vec![42]);
}

#[test]
fn rete_network_on_retract_removes_relevant_matches() {
    let mut net = MockReteNetwork::default();
    net.add_rule(SimpleRule { id: String::from("r1"), priority: 0 });

    net.on_assert(&make_fact(1, "x"));
    assert_eq!(net.activated().len(), 1);

    let invalidated = net.on_retract(&1);
    assert_eq!(invalidated.len(), 1);
    assert!(net.activated().is_empty());
}

#[test]
fn rete_network_retract_nonexistent_fact_leaves_activated_intact() {
    let mut net = MockReteNetwork::default();
    net.add_rule(SimpleRule { id: String::from("r1"), priority: 0 });
    net.on_assert(&make_fact(1, "x"));

    let invalidated = net.on_retract(&99);
    assert!(invalidated.is_empty());
    assert_eq!(net.activated().len(), 1);
}

#[test]
fn rete_network_remove_rule_clears_its_matches() {
    let mut net = MockReteNetwork::default();
    net.add_rule(SimpleRule { id: String::from("r1"), priority: 0 });
    net.on_assert(&make_fact(1, "x"));
    assert_eq!(net.activated().len(), 1);

    net.remove_rule("r1");
    assert!(net.activated().is_empty());
}

#[test]
fn conflict_strategy_integrates_with_rete_network() {
    let mut net = MockReteNetwork::default();
    net.add_rule(SimpleRule { id: String::from("low-prio"), priority: 1 });
    net.add_rule(SimpleRule { id: String::from("high-prio"), priority: 10 });

    net.on_assert(&make_fact(1, "trigger"));

    let selected = PriorityStrategy.select(net.activated()).unwrap();
    assert_eq!(selected.rule.id(), "high-prio");
}
