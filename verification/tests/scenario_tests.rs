use rig_bdi::agent::{AgentConfig, FactOutcome, ProcessOutcome, accept_llm_actions, assert_fact_and_plan, finish_execution, process_fact};
use rig_bdi::effects::Effect;
use rig_bdi::event_log::{EventLog, EventType};
use rig_bdi::executor::execute_plan;
use rig_bdi::facts::{AlertFact, AlertSource, Fact, Severity};
use rig_bdi::json::JsonValue;
use rig_bdi::llm::{parse_action_list, parse_interpretation};
use rig_bdi::projections::get_suggested_facts;
use rig_bdi::runbooks::{crashloop_runbook, oomkill_runbook};

fn config(llm_enabled: bool) -> AgentConfig {
    AgentConfig {
        max_replan_attempts: 3,
        runbooks: vec![
            ("crashloop_runbook", crashloop_runbook()),
            ("oomkill_runbook", oomkill_runbook()),
        ],
        all_actions: vec![crashloop_runbook(), oomkill_runbook()]
            .into_iter()
            .flatten()
            .collect(),
        goal_props: vec![String::from("recovery_verified")],
        llm_enabled,
    }
}

fn alert(id: &str, title: &str, severity: Severity, tags: Vec<&str>) -> Fact {
    Fact::Alert(AlertFact {
        id: String::from(id),
        source: AlertSource::Generic,
        severity,
        title: String::from(title),
        tags: tags.into_iter().map(String::from).collect(),
        received_at: String::from("1"),
    })
}

fn event_kinds(log: &EventLog, incident: &str) -> Vec<EventType> {
    log.events_for_incident(incident)
        .expect("events")
        .iter()
        .map(|e| e.event_type)
        .collect()
}

fn step_name(log: &EventLog, incident: &str, index: usize) -> String {
    let events = log.events_for_incident(incident).expect("events");
    events[index]
        .details
        .as_ref()
        .and_then(|d| d.get_str("name").cloned())
        .expect("step name")
}

fn ok_tool(_step: rig_bdi::runbooks::ActionSchema) -> Result<JsonValue, String> {
    Ok(JsonValue::Obj(vec![(String::from("status"), JsonValue::Str(String::from("ok")))]))
}

#[test]
fn crashloop_happy_path_resolves() {
    let mut log = EventLog::new();
    let cfg = config(false);
    let fact = alert("inc-1", "Pod crashlooping", Severity::High, vec!["crashloop"]);

    let steps = match assert_fact_and_plan(&mut log, &cfg, &fact, "1") {
        FactOutcome::Planned(steps) => steps,
        other => panic!("expected a runbook plan, got {other:?}"),
    };
    let run = execute_plan(&mut log, "inc-1", &steps, &ok_tool, "2");
    let escalation = finish_execution(&mut log, String::from("inc-1"), run, "3");
    assert!(escalation.is_none());

    assert_eq!(
        event_kinds(&log, "inc-1"),
        vec![
            EventType::FactAsserted,
            EventType::PlanSelected,
            EventType::ActionIntent,
            EventType::ActionResult,
            EventType::ActionIntent,
            EventType::ActionResult,
            EventType::Resolved,
        ],
    );
    assert_eq!(step_name(&log, "inc-1", 2), "inspect-pod-logs");
    assert_eq!(step_name(&log, "inc-1", 4), "rollback-deployment");
    let events = log.events_for_incident("inc-1").expect("events");
    for result_index in [3, 5] {
        let details = events[result_index].details.as_ref().expect("details");
        assert_eq!(details.get_str("status").map(String::as_str), Some("done"));
    }
}

#[test]
fn executor_failure_escalates() {
    let mut log = EventLog::new();
    let cfg = config(false);
    let fact = alert("inc-1", "Pod crashlooping", Severity::High, vec!["crashloop"]);

    let steps = match assert_fact_and_plan(&mut log, &cfg, &fact, "1") {
        FactOutcome::Planned(steps) => steps,
        other => panic!("expected a runbook plan, got {other:?}"),
    };
    let run = execute_plan(&mut log, "inc-1", &steps, &|step: rig_bdi::runbooks::ActionSchema| {
        if step.name == "rollback-deployment" {
            Err(String::from("boom"))
        } else {
            Ok(JsonValue::Null)
        }
    }, "2");
    let escalation = finish_execution(&mut log, String::from("inc-1"), run, "3").expect("escalation");
    assert_eq!(escalation.incident_id, "inc-1");
    assert_eq!(escalation.reason, "boom");

    assert_eq!(
        event_kinds(&log, "inc-1"),
        vec![
            EventType::FactAsserted,
            EventType::PlanSelected,
            EventType::ActionIntent,
            EventType::ActionResult,
            EventType::ActionIntent,
            EventType::ActionResult,
            EventType::Escalated,
        ],
    );
    let events = log.events_for_incident("inc-1").expect("events");
    let failed = events[5].details.as_ref().expect("details");
    assert_eq!(failed.get_str("status").map(String::as_str), Some("failed"));
    assert_eq!(failed.get_str("error").map(String::as_str), Some("boom"));
}

#[test]
fn unmatched_pattern_without_llm_escalates() {
    let mut log = EventLog::new();
    let cfg = config(false);
    let fact = alert("inc-2", "disk space low", Severity::High, vec![]);

    let outcome = assert_fact_and_plan(&mut log, &cfg, &fact, "1");
    let req = match outcome {
        FactOutcome::Escalated(req) => req,
        other => panic!("expected an escalation, got {other:?}"),
    };
    assert_eq!(req.incident_id, "inc-2");
    assert_eq!(req.reason, "no matching runbook");

    assert_eq!(
        event_kinds(&log, "inc-2"),
        vec![EventType::FactAsserted, EventType::Escalated],
    );
}

#[test]
fn llm_fallback_path_resolves() {
    let mut log = EventLog::new();
    let cfg = config(true);
    let fact = alert("inc-2", "disk space low", Severity::High, vec![]);

    let outcome = assert_fact_and_plan(&mut log, &cfg, &fact, "1");
    assert!(matches!(outcome, FactOutcome::NeedsLlm));

    let interp = parse_interpretation(
        r#"{"hypothesis":"memory pressure","goal":"recovery_verified","candidate_actions":["inspect-memory-metrics"]}"#,
    )
    .expect("interpretation");
    let names = parse_action_list(r#"{"actions":["inspect-memory-metrics"]}"#).expect("names");

    let plan = accept_llm_actions(
        &mut log,
        String::from("inc-2"),
        interp.hypothesis.as_str(),
        &names,
        &interp.candidate_actions,
        &cfg.all_actions,
        "2",
    )
    .expect("plan accepted");
    assert_eq!(plan.len(), 1);
    assert_eq!(plan[0].name, "inspect-memory-metrics");

    let run = execute_plan(&mut log, "inc-2", &plan, &ok_tool, "3");
    let escalation = finish_execution(&mut log, String::from("inc-2"), run, "4");
    assert!(escalation.is_none());

    assert_eq!(
        event_kinds(&log, "inc-2"),
        vec![
            EventType::FactAsserted,
            EventType::PlanSelected,
            EventType::ActionIntent,
            EventType::ActionResult,
            EventType::Resolved,
        ],
    );
    assert_eq!(step_name(&log, "inc-2", 2), "inspect-memory-metrics");
}

#[test]
fn llm_with_no_valid_plan_escalates() {
    let mut log = EventLog::new();
    let cfg = config(true);
    let fact = alert("inc-9", "disk space low", Severity::High, vec![]);
    assert!(matches!(assert_fact_and_plan(&mut log, &cfg, &fact, "1"), FactOutcome::NeedsLlm));

    let names = vec![String::from("made-up-action")];
    let candidates: Vec<String> = Vec::new();
    let req = accept_llm_actions(
        &mut log,
        String::from("inc-9"),
        "unknown",
        &names,
        &candidates,
        &cfg.all_actions,
        "2",
    )
    .unwrap_err();
    assert_eq!(req.reason, "no valid llm plan");
    assert_eq!(
        event_kinds(&log, "inc-9"),
        vec![EventType::FactAsserted, EventType::Escalated],
    );
}

#[test]
fn suggestion_ids_reference_the_suggested_event() {
    let mut log = EventLog::new();
    let k = log
        .append(&rig_bdi::event_log::Event {
            id: None,
            incident_id: String::from("inc-k"),
            event_type: EventType::FactSuggested,
            description: String::from("suggested"),
            details: Some(JsonValue::Obj(vec![
                (String::from("fact_id"), JsonValue::Str(String::from("f1"))),
            ])),
            timestamp: String::from("1"),
        })
        .expect("append");

    let pending = get_suggested_facts(&log, String::from("inc-k")).expect("pending");
    assert_eq!(pending.len(), 1);
    assert_eq!(pending[0].suggestion_event_id, k);

    log.append(&rig_bdi::event_log::Event {
        id: None,
        incident_id: String::from("inc-k"),
        event_type: EventType::FactSuggestionResolved,
        description: String::from("resolved"),
        details: Some(JsonValue::Obj(vec![
            (String::from("suggestion_event_id"), JsonValue::Int(k)),
            (String::from("decision"), JsonValue::Str(String::from("reject"))),
        ])),
        timestamp: String::from("2"),
    })
    .expect("append resolution");

    assert!(get_suggested_facts(&log, String::from("inc-k")).expect("after").is_empty());
}

#[test]
fn process_fact_runs_the_whole_cycle() {
    let mut log = EventLog::new();
    let cfg = config(false);
    let fact = alert("inc-p", "Pod crashlooping", Severity::High, vec!["crashloop"]);

    let outcome = process_fact(&mut log, &cfg, &fact, &ok_tool, "1");
    assert!(matches!(outcome, ProcessOutcome::Done(None)));
    assert_eq!(
        event_kinds(&log, "inc-p"),
        vec![
            EventType::FactAsserted,
            EventType::PlanSelected,
            EventType::ActionIntent,
            EventType::ActionResult,
            EventType::ActionIntent,
            EventType::ActionResult,
            EventType::Resolved,
        ],
    );

    let mut log2 = EventLog::new();
    let generic = alert("inc-q", "disk space low", Severity::High, vec![]);
    let outcome = process_fact(&mut log2, &cfg, &generic, &ok_tool, "1");
    let ProcessOutcome::Done(Some(req)) = outcome else {
        panic!("expected an escalation");
    };
    assert_eq!(req.reason, "no matching runbook");
}

#[test]
fn effect_labels_follow_runbook_steps() {
    let mut log = EventLog::new();
    let cfg = config(false);
    let fact = alert("inc-e", "oom killed again", Severity::Critical, vec![]);

    let steps = match assert_fact_and_plan(&mut log, &cfg, &fact, "1") {
        FactOutcome::Planned(steps) => steps,
        other => panic!("expected a runbook plan, got {other:?}"),
    };
    assert_eq!(steps[0].effect, Effect::Observe);
    assert_eq!(steps[0].name, "inspect-memory-metrics");
    assert_eq!(steps[1].effect, Effect::Mutate);

    let events = log.events_for_incident("inc-e").expect("events");
    assert_eq!(events[1].description, "selected runbook: oomkill_runbook");
}
