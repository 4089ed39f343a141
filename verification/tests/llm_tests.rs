use rig_bdi::effects::Effect;
use rig_bdi::llm::{parse_action_list, parse_interpretation, parse_suggested_facts, validate_actions};
use rig_bdi::runbooks::ActionSchema;

#[test]
fn parse_interpretation_json() {
    let raw = r#"{
      "hypothesis":"memory pressure",
      "goal":"recovery_verified",
      "candidate_actions":["inspect-memory-metrics","tune-memory-limits"]
    }"#;
    let parsed = parse_interpretation(raw).expect("parse");
    assert_eq!(parsed.goal, "recovery_verified");
    assert_eq!(parsed.candidate_actions.len(), 2);
}

#[test]
fn parse_action_list_json() {
    let raw = r#"{"actions":["inspect-pod-logs","rollback-deployment"]}"#;
    let parsed = parse_action_list(raw).expect("parse");
    assert_eq!(parsed.len(), 2);
}

#[test]
fn parse_suggested_facts_json() {
    let raw = r#"{
      "suggestions": [
        {"fact_id":"f1","title":"pod restarted", "severity":"high", "tags":["k8s"], "rationale":"recent restart spike"}
      ]
    }"#;
    let parsed = parse_suggested_facts(raw).expect("parse");
    assert_eq!(parsed.len(), 1);
    assert_eq!(parsed[0].fact_id, "f1");
}

#[test]
fn parse_suggested_facts_defaults_only_missing_fields() {
    let raw = r#"{"suggestions":[{"fact_id":"","title":"","tags":[]}]}"#;
    let parsed = parse_suggested_facts(raw).expect("parse");
    assert_eq!(parsed.len(), 1);
    // Present fields are kept even when empty; only missing ones default.
    assert_eq!(parsed[0].fact_id, "");
    assert_eq!(parsed[0].title, "");
    assert_eq!(parsed[0].severity, "high");
    assert_eq!(parsed[0].rationale, "llm suggestion");
    assert!(parsed[0].tags.is_empty());
}

#[test]
fn parse_interpretation_applies_defaults() {
    let parsed = parse_interpretation("{}").expect("parse");
    assert_eq!(parsed.hypothesis, "unknown");
    assert_eq!(parsed.goal, "recovery_verified");
    assert!(parsed.candidate_actions.is_empty());

    let coerced = parse_interpretation(r#"{"hypothesis":"","goal":""}"#).expect("parse");
    assert_eq!(coerced.hypothesis, "unknown");
    assert_eq!(coerced.goal, "recovery_verified");
}

#[test]
fn parse_interpretation_rejects_bad_json() {
    let err = parse_interpretation("not json").unwrap_err();
    assert_eq!(err, "invalid llm interpretation json");
    let err = parse_action_list("{").unwrap_err();
    assert_eq!(err, "invalid llm action-list json");
    let err = parse_suggested_facts("[").unwrap_err();
    assert_eq!(err, "invalid llm suggestions json");
}

fn action(name: &str, effect: Effect) -> ActionSchema {
    ActionSchema { name: String::from(name), effect }
}

#[test]
fn validator_keeps_only_whitelisted_names() {
    let all = vec![
        action("inspect-pod-logs", Effect::Observe),
        action("rollback-deployment", Effect::Mutate),
    ];
    let names = vec![
        String::from("rollback-deployment"),
        String::from("rm -rf /"),
        String::from("inspect-pod-logs"),
    ];
    let candidates: Vec<String> = Vec::new();

    let selected = validate_actions(&names, &candidates, &all);
    let got: Vec<&str> = selected.iter().map(|a| a.name.as_str()).collect();
    assert_eq!(got, vec!["rollback-deployment", "inspect-pod-logs"]);
}

#[test]
fn validator_falls_back_to_candidates_on_empty_intersection() {
    let all = vec![
        action("inspect-pod-logs", Effect::Observe),
        action("rollback-deployment", Effect::Mutate),
    ];
    let names = vec![String::from("unknown-action")];
    let candidates = vec![String::from("rollback-deployment")];

    let selected = validate_actions(&names, &candidates, &all);
    assert_eq!(selected.len(), 1);
    assert_eq!(selected[0].name, "rollback-deployment");

    let no_candidates: Vec<String> = Vec::new();
    let empty = validate_actions(&names, &no_candidates, &all);
    assert!(empty.is_empty());
}
