use rig_bdi::effects::Effect;
use rig_bdi::event_log::{EventLog, EventType};
use rig_bdi::executor::execute_plan;
use rig_bdi::json::JsonValue;
use rig_bdi::runbooks::ActionSchema;

fn str_field<'a>(details: &'a JsonValue, key: &str) -> Option<&'a String> {
    details.get_str(key)
}

#[test]
fn failure_emits_action_result_with_failed_status() {
    let mut log = EventLog::new();
    let steps = vec![ActionSchema {
        name: String::from("failing-action"),
        effect: Effect::Mutate,
    }];

    let result = execute_plan(&mut log, "inc-fail", &steps, &|_step: ActionSchema| {
        Err(String::from("boom"))
    }, "1");
    assert!(result.is_err());

    let events = log.events_for_incident("inc-fail").expect("events");
    assert_eq!(events.len(), 2);
    assert!(matches!(events[0].event_type, EventType::ActionIntent));
    assert!(matches!(events[1].event_type, EventType::ActionResult));

    let details = events[1].details.as_ref().expect("details");
    assert_eq!(str_field(details, "status").map(String::as_str), Some("failed"));
    assert_eq!(str_field(details, "error").map(String::as_str), Some("boom"));
}

#[test]
fn steps_run_in_order_and_stop_at_first_failure() {
    let mut log = EventLog::new();
    let steps = vec![
        ActionSchema { name: String::from("one"), effect: Effect::Observe },
        ActionSchema { name: String::from("two"), effect: Effect::Mutate },
        ActionSchema { name: String::from("three"), effect: Effect::Mutate },
    ];

    let result = execute_plan(&mut log, "inc-order", &steps, &|step: ActionSchema| {
        if step.name == "two" {
            Err(String::from("nope"))
        } else {
            Ok(JsonValue::Null)
        }
    }, "1");
    let (failed, reason) = result.unwrap_err();
    assert_eq!(failed.name, "two");
    assert_eq!(reason, "nope");

    let events = log.events_for_incident("inc-order").expect("events");
    // one intent/result pair per attempted step; nothing for step three
    assert_eq!(events.len(), 4);
    assert!(matches!(events[0].event_type, EventType::ActionIntent));
    assert_eq!(
        events[0].details.as_ref().unwrap().get_str("name").map(String::as_str),
        Some("one")
    );
    assert!(matches!(events[2].event_type, EventType::ActionIntent));
    assert_eq!(
        events[2].details.as_ref().unwrap().get_str("name").map(String::as_str),
        Some("two")
    );
    for e in &events {
        assert!(e.details.as_ref().unwrap().get_str("name").map(String::as_str) != Some("three"));
    }
}

#[test]
fn success_records_done_results_with_output() {
    let mut log = EventLog::new();
    let steps = vec![ActionSchema { name: String::from("probe"), effect: Effect::Observe }];
    let result = execute_plan(&mut log, "inc-ok", &steps, &|_step: ActionSchema| {
        Ok(JsonValue::Str(String::from("fine")))
    }, "7");
    assert!(result.is_ok());

    let events = log.events_for_incident("inc-ok").expect("events");
    assert_eq!(events.len(), 2);
    let details = events[1].details.as_ref().expect("details");
    assert_eq!(details.get_str("status").map(String::as_str), Some("done"));
    assert_eq!(details.get("result"), Some(&JsonValue::Str(String::from("fine"))));
    assert_eq!(events[1].timestamp, "7");
}
