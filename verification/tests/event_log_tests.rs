use rig_bdi::event_log::{Event, EventLog, EventType};
use rig_bdi::json::JsonValue;

fn obj(fields: Vec<(&str, JsonValue)>) -> JsonValue {
    JsonValue::Obj(fields.into_iter().map(|(k, v)| (String::from(k), v)).collect())
}

fn jstr(s: &str) -> JsonValue {
    JsonValue::Str(String::from(s))
}

fn event(incident_id: &str, event_type: EventType, description: &str, details: Option<JsonValue>, timestamp: &str) -> Event {
    Event {
        id: None,
        incident_id: String::from(incident_id),
        event_type,
        description: String::from(description),
        details,
        timestamp: String::from(timestamp),
    }
}

#[test]
fn append_and_query_roundtrip() {
    let mut log = EventLog::new();
    let id = log
        .append(&event(
            "inc-a",
            EventType::FactAsserted,
            "fact",
            Some(obj(vec![("k", jstr("v"))])),
            "1",
        ))
        .expect("append");

    assert!(id > 0);

    let events = log.events_for_incident("inc-a").expect("events");
    assert_eq!(events.len(), 1);
    assert_eq!(events[0].incident_id, "inc-a");
    assert!(matches!(events[0].event_type, EventType::FactAsserted));
    assert_eq!(events[0].details, Some(obj(vec![("k", jstr("v"))])));
}

#[test]
fn events_after_tracks_incremental_stream() {
    let mut log = EventLog::new();
    let a = log
        .append(&event("inc-a", EventType::FactAsserted, "fact", None, "1"))
        .expect("append a");
    let b = log
        .append(&event("inc-a", EventType::Resolved, "resolved", None, "2"))
        .expect("append b");

    let events = log.events_after(a).expect("events after");
    assert_eq!(events.len(), 1);
    assert_eq!(events[0].id, Some(b));
}

#[test]
fn active_incidents_excludes_resolved() {
    let mut log = EventLog::new();
    for e in [
        event("inc-1", EventType::FactAsserted, "fact", None, "1"),
        event("inc-1", EventType::Resolved, "resolved", None, "2"),
        event("inc-2", EventType::FactAsserted, "fact", None, "3"),
    ] {
        log.append(&e).expect("append");
    }

    let active = log.active_incidents().expect("active");
    assert_eq!(active, vec!["inc-2".to_string()]);
}

#[test]
fn append_assigns_strictly_increasing_ids() {
    let mut log = EventLog::new();
    let mut previous = 0;
    for i in 0..5 {
        let ts = format!("{i}");
        let id = log
            .append(&event("inc-seq", EventType::FactAsserted, "fact", None, &ts))
            .expect("append");
        assert!(id > previous);
        previous = id;
    }
    let events = log.events_for_incident("inc-seq").expect("events");
    for w in events.windows(2) {
        assert!(w[0].id.unwrap() < w[1].id.unwrap());
    }
}

#[test]
fn events_after_returns_exactly_later_events() {
    let mut log = EventLog::new();
    let mut ids = Vec::new();
    for i in 0..6 {
        let ts = format!("{i}");
        let inc = if i % 2 == 0 { "inc-x" } else { "inc-y" };
        ids.push(log.append(&event(inc, EventType::FactAsserted, "fact", None, &ts)).expect("append"));
    }
    let cut = ids[2];
    let after = log.events_after(cut).expect("after");
    assert_eq!(after.len(), 3);
    for (n, e) in after.iter().enumerate() {
        assert_eq!(e.id, Some(ids[3 + n]));
        assert!(e.id.unwrap() > cut);
    }

    let nothing = log.events_after(ids[5]).expect("after end");
    assert!(nothing.is_empty());

    let everything = log.events_after(0).expect("after zero");
    assert_eq!(everything.len(), 6);
}

#[test]
fn latest_event_id_tracks_max() {
    let mut log = EventLog::new();
    assert_eq!(log.latest_event_id().expect("latest"), None);
    let a = log
        .append(&event("inc-a", EventType::FactAsserted, "fact", None, "1"))
        .expect("append");
    assert_eq!(log.latest_event_id().expect("latest"), Some(a));
    let b = log
        .append(&event("inc-b", EventType::FactAsserted, "fact", None, "2"))
        .expect("append");
    assert_eq!(log.latest_event_id().expect("latest"), Some(b));
}

#[test]
fn all_incidents_orders_by_most_recent_activity() {
    let mut log = EventLog::new();
    log.append(&event("inc-1", EventType::FactAsserted, "fact", None, "1")).expect("append");
    log.append(&event("inc-2", EventType::FactAsserted, "fact", None, "2")).expect("append");
    log.append(&event("inc-1", EventType::Resolved, "resolved", None, "3")).expect("append");

    let all = log.all_incidents().expect("all");
    assert_eq!(all, vec!["inc-1".to_string(), "inc-2".to_string()]);
}
