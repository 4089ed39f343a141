use rig_bdi::commands::{decide_fact_suggestion, facts_for_suggestions, reprocess_incident, retract_fact, upsert_alert_fact};
use rig_bdi::event_log::{Event, EventLog, EventType};
use rig_bdi::facts::{AlertFact, AlertSource, Fact, Severity};
use rig_bdi::json::JsonValue;
use rig_bdi::projections::{get_beliefs, get_current_plan, get_suggested_facts, get_timeline, get_tool_calls, list_incidents};

fn obj(fields: Vec<(&str, JsonValue)>) -> JsonValue {
    JsonValue::Obj(fields.into_iter().map(|(k, v)| (String::from(k), v)).collect())
}

fn jstr(s: &str) -> JsonValue {
    JsonValue::Str(String::from(s))
}

fn event(incident_id: &str, event_type: EventType, description: &str, details: Option<JsonValue>, timestamp: &str) -> Event {
    Event {
        id: None,
        incident_id: String::from(incident_id),
        event_type,
        description: String::from(description),
        details,
        timestamp: String::from(timestamp),
    }
}

#[test]
fn list_incidents_reads_active_ids() {
    let mut log = EventLog::new();
    log.append(&event("inc-1", EventType::FactAsserted, "fact", None, "1")).expect("append");

    let incidents = list_incidents(&log).expect("list");
    assert_eq!(incidents.len(), 1);
    assert_eq!(incidents[0].id, "inc-1");
}

#[test]
fn get_beliefs_reads_asserted_facts() {
    let mut log = EventLog::new();
    let fact = Fact::Alert(AlertFact {
        id: String::from("inc-2"),
        source: AlertSource::Generic,
        severity: Severity::High,
        title: String::from("db latency high"),
        tags: vec![String::from("db")],
        received_at: String::from("10"),
    });

    log.append(&event(
        "inc-2",
        EventType::FactAsserted,
        "fact",
        Some(rig_bdi::facts::fact_to_json(&fact)),
        "10",
    ))
    .expect("append");

    let beliefs = get_beliefs(&log, String::from("inc-2")).expect("beliefs");
    assert_eq!(beliefs.len(), 1);
    assert_eq!(beliefs[0].fact_id, "inc-2");
    assert_eq!(beliefs[0].fact_type, "Alert");
    assert_eq!(beliefs[0].summary, "db latency high");
    assert_eq!(beliefs[0].severity, "high");
    assert_eq!(beliefs[0].tags, vec![String::from("db")]);
}

#[test]
fn get_current_plan_maps_action_events_to_steps() {
    let mut log = EventLog::new();

    log.append(&event(
        "inc-3",
        EventType::ActionIntent,
        "intent",
        Some(obj(vec![
            ("name", jstr("inspect-pod-logs")),
            ("effect", jstr("Observe")),
            ("status", jstr("running")),
        ])),
        "20",
    ))
    .expect("append intent");

    log.append(&event(
        "inc-3",
        EventType::ActionResult,
        "result",
        Some(obj(vec![
            ("name", jstr("inspect-pod-logs")),
            ("effect", jstr("Observe")),
            ("status", jstr("done")),
        ])),
        "21",
    ))
    .expect("append result");

    let plan = get_current_plan(&log, String::from("inc-3")).expect("plan");
    assert_eq!(plan.steps.len(), 1);
    assert_eq!(plan.steps[0].name, "inspect-pod-logs");
    assert_eq!(plan.steps[0].status, "done");
}

#[test]
fn get_tool_calls_reads_intent_and_result() {
    let mut log = EventLog::new();

    log.append(&event(
        "inc-tools",
        EventType::ActionIntent,
        "intent",
        Some(obj(vec![
            ("name", jstr("inspect-pod-logs")),
            ("effect", jstr("Observe")),
            ("status", jstr("running")),
        ])),
        "30",
    ))
    .expect("append intent");

    log.append(&event(
        "inc-tools",
        EventType::ActionResult,
        "result",
        Some(obj(vec![
            ("name", jstr("inspect-pod-logs")),
            ("effect", jstr("Observe")),
            ("status", jstr("done")),
        ])),
        "31",
    ))
    .expect("append result");

    let rows = get_tool_calls(&log, String::from("inc-tools")).expect("tool calls");
    assert_eq!(rows.len(), 2);
    assert_eq!(rows[0].phase, "intent");
    assert_eq!(rows[1].phase, "result");
    assert_eq!(rows[1].status, "done");
}

#[test]
fn retract_fact_removes_it_from_materialized_beliefs() {
    let mut log = EventLog::new();

    upsert_alert_fact(
        &mut log,
        String::from("inc-4"),
        String::from("fact-1"),
        String::from("test title"),
        String::from("high"),
        vec![String::from("x")],
        "1",
    )
    .expect("upsert");

    retract_fact(&mut log, String::from("inc-4"), String::from("fact-1"), "2").expect("retract");

    let beliefs = get_beliefs(&log, String::from("inc-4")).expect("beliefs");
    assert!(beliefs.is_empty());

    // The timeline still shows both events.
    let timeline = get_timeline(&log, String::from("inc-4")).expect("timeline");
    assert_eq!(timeline.len(), 2);
    assert_eq!(timeline[0].event_type, "FactAsserted");
    assert_eq!(timeline[1].event_type, "FactRetracted");
}

#[test]
fn reprocess_incident_appends_plan_and_resolution() {
    let mut log = EventLog::new();

    upsert_alert_fact(
        &mut log,
        String::from("inc-r1"),
        String::from("inc-r1"),
        String::from("Pod crashlooping"),
        String::from("high"),
        vec![String::from("crashloop")],
        "1",
    )
    .expect("upsert");

    reprocess_incident(&mut log, String::from("inc-r1"), "2").expect("reprocess");
    let timeline = get_timeline(&log, String::from("inc-r1")).expect("timeline");
    assert!(timeline.iter().any(|e| e.event_type == "PlanSelected"));
    assert!(timeline.iter().any(|e| e.event_type == "Resolved"));
}

#[test]
fn suggestion_lifecycle_tracks_pending_queue() {
    let mut log = EventLog::new();

    log.append(&event(
        "inc-s1",
        EventType::FactSuggested,
        "suggested",
        Some(obj(vec![
            ("fact_id", jstr("f1")),
            ("title", jstr("suspected deploy regression")),
            ("severity", jstr("high")),
            ("tags", JsonValue::Arr(vec![jstr("deploy")])),
            ("rationale", jstr("error spike after rollout")),
        ])),
        "1",
    ))
    .expect("append suggested");

    let pending = get_suggested_facts(&log, String::from("inc-s1")).expect("pending");
    assert_eq!(pending.len(), 1);

    decide_fact_suggestion(
        &mut log,
        String::from("inc-s1"),
        pending[0].suggestion_event_id,
        String::from("reject"),
        "2",
    )
    .expect("decide");

    let pending_after = get_suggested_facts(&log, String::from("inc-s1")).expect("pending after");
    assert!(pending_after.is_empty());
}

#[test]
fn approved_suggestion_asserts_the_fact() {
    let mut log = EventLog::new();
    log.append(&event(
        "inc-s2",
        EventType::FactSuggested,
        "suggested",
        Some(obj(vec![
            ("fact_id", jstr("f9")),
            ("title", jstr("disk pressure suspected")),
            ("severity", jstr("medium")),
            ("tags", JsonValue::Arr(vec![jstr("disk")])),
            ("rationale", jstr("io spikes")),
        ])),
        "1",
    ))
    .expect("append suggested");

    let pending = get_suggested_facts(&log, String::from("inc-s2")).expect("pending");
    decide_fact_suggestion(
        &mut log,
        String::from("inc-s2"),
        pending[0].suggestion_event_id,
        String::from("Approve"),
        "2",
    )
    .expect("decide");

    let beliefs = get_beliefs(&log, String::from("inc-s2")).expect("beliefs");
    assert_eq!(beliefs.len(), 1);
    assert_eq!(beliefs[0].fact_id, "f9");
    assert_eq!(beliefs[0].severity, "medium");

    assert!(get_suggested_facts(&log, String::from("inc-s2")).expect("after").is_empty());
}

#[test]
fn decide_unknown_suggestion_fails() {
    let mut log = EventLog::new();
    let err = decide_fact_suggestion(&mut log, String::from("inc-x"), 42, String::from("approve"), "1")
        .unwrap_err();
    assert_eq!(err, "suggestion event not found");
    assert_eq!(log.len(), 0);
}

#[test]
fn reprocess_classifies_the_most_recent_fact() {
    // The most recently asserted active fact decides the pattern: a
    // crash-loop fact followed by a generic one leaves no match...
    let mut log = EventLog::new();
    upsert_alert_fact(
        &mut log,
        String::from("inc-m"),
        String::from("f-crash"),
        String::from("Pod crashlooping"),
        String::from("high"),
        vec![],
        "1",
    )
    .expect("upsert");
    upsert_alert_fact(
        &mut log,
        String::from("inc-m"),
        String::from("f-generic"),
        String::from("disk space low"),
        String::from("high"),
        vec![],
        "2",
    )
    .expect("upsert");
    let err = reprocess_incident(&mut log, String::from("inc-m"), "3").unwrap_err();
    assert_eq!(err, "no matching deterministic runbook");

    // ...while the same facts in the other order resolve via the runbook.
    let mut log2 = EventLog::new();
    upsert_alert_fact(
        &mut log2,
        String::from("inc-n"),
        String::from("f-generic"),
        String::from("disk space low"),
        String::from("high"),
        vec![],
        "1",
    )
    .expect("upsert");
    upsert_alert_fact(
        &mut log2,
        String::from("inc-n"),
        String::from("f-crash"),
        String::from("Pod crashlooping"),
        String::from("high"),
        vec![],
        "2",
    )
    .expect("upsert");
    reprocess_incident(&mut log2, String::from("inc-n"), "3").expect("reprocess");
    let timeline = get_timeline(&log2, String::from("inc-n")).expect("timeline");
    assert!(timeline.iter().any(|e| e.event_type == "Resolved"));
}

#[test]
fn reasserting_a_fact_moves_it_last() {
    let mut log = EventLog::new();
    for (fact_id, title, ts) in [("a", "first", "1"), ("b", "second", "2"), ("a", "first again", "3")] {
        upsert_alert_fact(
            &mut log,
            String::from("inc-o"),
            String::from(fact_id),
            String::from(title),
            String::from("high"),
            vec![],
            ts,
        )
        .expect("upsert");
    }
    let beliefs = get_beliefs(&log, String::from("inc-o")).expect("beliefs");
    assert_eq!(beliefs.len(), 2);
    assert_eq!(beliefs[0].fact_id, "b");
    assert_eq!(beliefs[1].fact_id, "a");
    assert_eq!(beliefs[1].summary, "first again");
}

#[test]
fn suggestion_generation_needs_an_active_fact() {
    let mut log = EventLog::new();
    let err = facts_for_suggestions(&log, "inc-u").unwrap_err();
    assert_eq!(err, "no active facts for incident");

    upsert_alert_fact(
        &mut log,
        String::from("inc-u"),
        String::from("f1"),
        String::from("db latency high"),
        String::from("high"),
        vec![],
        "1",
    )
    .expect("upsert");
    retract_fact(&mut log, String::from("inc-u"), String::from("f1"), "2").expect("retract");
    let err = facts_for_suggestions(&log, "inc-u").unwrap_err();
    assert_eq!(err, "no active facts for incident");

    upsert_alert_fact(
        &mut log,
        String::from("inc-u"),
        String::from("f2"),
        String::from("db latency high"),
        String::from("high"),
        vec![],
        "3",
    )
    .expect("upsert");
    let facts = facts_for_suggestions(&log, "inc-u").expect("facts");
    assert_eq!(facts.len(), 1);
}

#[test]
fn reprocess_without_facts_or_runbook_fails() {
    let mut log = EventLog::new();
    let err = reprocess_incident(&mut log, String::from("inc-none"), "1").unwrap_err();
    assert_eq!(err, "no active facts for incident");

    upsert_alert_fact(
        &mut log,
        String::from("inc-gen"),
        String::from("inc-gen"),
        String::from("disk space low"),
        String::from("high"),
        vec![],
        "1",
    )
    .expect("upsert");
    let err = reprocess_incident(&mut log, String::from("inc-gen"), "2").unwrap_err();
    assert_eq!(err, "no matching deterministic runbook");
}
