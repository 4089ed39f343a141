use std::cell::RefCell;

use rig_bdi::commands::{EscalationResponse, record_escalation_decision};
use rig_bdi::dispatch::{EventSink, emit_updates};
use rig_bdi::event_log::{Event, EventLog, EventType};
use rig_bdi::json::JsonValue;
use rig_bdi::projections::get_timeline;

#[derive(Default)]
struct CaptureSink {
    seen: RefCell<Vec<String>>,
}

impl EventSink for CaptureSink {
    fn emit_json(&self, event: &str, _payload: JsonValue) {
        self.seen.borrow_mut().push(String::from(event));
    }
}

fn seed(incident_id: &str, event_type: EventType, description: &str) -> Event {
    Event {
        id: None,
        incident_id: String::from(incident_id),
        event_type,
        description: String::from(description),
        details: None,
        timestamp: String::from("1"),
    }
}

#[test]
fn emits_required_event_names() {
    let mut log = EventLog::new();
    let incident_id = "inc-runtime";

    log.append(&seed(incident_id, EventType::FactAsserted, "fact")).expect("append");
    log.append(&seed(incident_id, EventType::PlanSelected, "plan")).expect("append");
    log.append(&seed(incident_id, EventType::ActionResult, "action")).expect("append");
    log.append(&seed(incident_id, EventType::Escalated, "escalate")).expect("append");

    let sink = CaptureSink::default();
    let mut last_id = 0;
    let active = log.active_incidents().expect("active").len();
    emit_updates(&log, &sink, &mut last_id, active);

    let seen = sink.seen.borrow().clone();
    assert!(seen.contains(&String::from("beliefs-updated")));
    assert!(seen.contains(&String::from("plan-selected")));
    assert!(seen.contains(&String::from("action-completed")));
    assert!(seen.contains(&String::from("escalation-required")));
    assert_eq!(last_id, 4);
}

#[test]
fn dispatcher_cursor_only_advances() {
    let mut log = EventLog::new();
    log.append(&seed("inc-c", EventType::Resolved, "resolved")).expect("append");

    let sink = CaptureSink::default();
    let mut last_id = 0;
    emit_updates(&log, &sink, &mut last_id, 0);
    assert_eq!(last_id, 1);

    // A second tick with nothing new emits only the heartbeat.
    emit_updates(&log, &sink, &mut last_id, 0);
    assert_eq!(last_id, 1);
    let seen = sink.seen.borrow().clone();
    assert_eq!(seen.iter().filter(|n| n.as_str() == "incident-resolved").count(), 1);
    assert_eq!(seen.iter().filter(|n| n.as_str() == "beliefs-updated").count(), 2);
}

#[test]
fn human_approval_records_response_and_resolution() {
    let mut log = EventLog::new();
    log.append(&seed("inc-h", EventType::Escalated, "escalate")).expect("append");

    record_escalation_decision(&mut log, String::from("inc-h"), &EscalationResponse::Approve, "9")
        .expect("decision");
    let timeline = get_timeline(&log, String::from("inc-h")).expect("timeline");
    let kinds: Vec<&str> = timeline.iter().map(|e| e.event_type.as_str()).collect();
    assert_eq!(kinds, vec!["Escalated", "EscalationResponded", "Resolved"]);
    assert_eq!(timeline[2].description, "resolved by human approval");

    let mut log2 = EventLog::new();
    record_escalation_decision(
        &mut log2,
        String::from("inc-h"),
        &EscalationResponse::Reject { reason: String::from("not convinced") },
        "9",
    )
    .expect("decision");
    let timeline = get_timeline(&log2, String::from("inc-h")).expect("timeline");
    assert_eq!(timeline.len(), 1);
    assert_eq!(timeline[0].event_type, "EscalationResponded");
}
