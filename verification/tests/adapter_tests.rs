use rig_bdi::adapters::{parse_alertmanager, parse_generic};
use rig_bdi::facts::{AlertSource, Fact, Severity, parse_severity};
use rig_bdi::json::{JsonValue, parse_json};
use rig_bdi::planner::select_runbook;
use rig_bdi::rules::{IncidentPattern, detect_pattern};
use rig_bdi::runbooks::{crashloop_runbook, oomkill_runbook};
use rig_bdi::tools::ToolRegistry;

fn payload(text: &str) -> JsonValue {
    parse_json(text).expect("valid payload json")
}

#[test]
fn generic_adapter_reads_documented_fields() {
    let fact = parse_generic(
        &payload(r#"{"id":"inc-7","title":"CPU saturated","severity":"critical","tags":["cpu","node"]}"#),
        "99",
    )
    .expect("parse");
    let Fact::Alert(alert) = fact;
    assert_eq!(alert.id, "inc-7");
    assert_eq!(alert.title, "CPU saturated");
    assert_eq!(alert.severity, Severity::Critical);
    assert_eq!(alert.tags, vec![String::from("cpu"), String::from("node")]);
    assert_eq!(alert.source, AlertSource::Generic);
    assert_eq!(alert.received_at, "99");
}

#[test]
fn generic_adapter_applies_defaults_and_fallback_keys() {
    let fact = parse_generic(
        &payload(r#"{"incident_id":"inc-8","alert_title":"paging loop"}"#),
        "5",
    )
    .expect("parse");
    let Fact::Alert(alert) = fact;
    assert_eq!(alert.id, "inc-8");
    assert_eq!(alert.title, "paging loop");
    assert_eq!(alert.severity, Severity::High);
    assert!(alert.tags.is_empty());
}

#[test]
fn generic_adapter_rejects_blank_title() {
    let err = parse_generic(&payload(r#"{"id":"inc-9"}"#), "5").unwrap_err();
    assert_eq!(err, "title is required");
}

#[test]
fn alertmanager_adapter_requires_first_alert() {
    let err = parse_alertmanager(&payload(r#"{"alerts":[]}"#), "5").unwrap_err();
    assert_eq!(err, "alertmanager payload missing alerts[0]");
    let err = parse_alertmanager(&payload(r#"{"status":"firing"}"#), "5").unwrap_err();
    assert_eq!(err, "alertmanager payload missing alerts[0]");
}

#[test]
fn alertmanager_adapter_flattens_labels() {
    let fact = parse_alertmanager(
        &payload(
            r#"{"alerts":[{
                "fingerprint":"abc123",
                "labels":{"alertname":"KubePodCrashLooping","severity":"critical","namespace":"prod"},
                "annotations":{"summary":"Pod is crash looping"}
            }]}"#,
        ),
        "77",
    )
    .expect("parse");
    let Fact::Alert(alert) = fact;
    assert_eq!(alert.id, "abc123");
    assert_eq!(alert.title, "Pod is crash looping");
    assert_eq!(alert.severity, Severity::Critical);
    assert!(alert.tags.contains(&String::from("alertname:KubePodCrashLooping")));
    assert!(alert.tags.contains(&String::from("namespace:prod")));
    assert_eq!(alert.received_at, "77");
}

#[test]
fn alertmanager_title_and_id_fall_back_in_order() {
    let fact = parse_alertmanager(
        &payload(r#"{"alerts":[{"labels":{"alertname":"DiskFull","severity":"low"}}]}"#),
        "1",
    )
    .expect("parse");
    let Fact::Alert(alert) = fact;
    assert_eq!(alert.title, "DiskFull");
    assert_eq!(alert.id, "DiskFull");
    assert_eq!(alert.severity, Severity::Low);
}

fn alert_fact(title: &str, tags: Vec<&str>) -> Fact {
    Fact::Alert(rig_bdi::facts::AlertFact {
        id: String::from("inc"),
        source: AlertSource::Generic,
        severity: Severity::High,
        title: String::from(title),
        tags: tags.into_iter().map(String::from).collect(),
        received_at: String::from("1"),
    })
}

#[test]
fn pattern_detection_matches_keywords_case_insensitively() {
    assert_eq!(detect_pattern(&alert_fact("Pod CrashLooping", vec![])), IncidentPattern::CrashLoop);
    assert_eq!(detect_pattern(&alert_fact("all quiet", vec!["CRASHLOOP"])), IncidentPattern::CrashLoop);
    assert_eq!(detect_pattern(&alert_fact("OOM killed", vec![])), IncidentPattern::OomKill);
    assert_eq!(detect_pattern(&alert_fact("Out of Memory on node", vec![])), IncidentPattern::OomKill);
    assert_eq!(detect_pattern(&alert_fact("quiet", vec!["oomkill"])), IncidentPattern::OomKill);
    assert_eq!(detect_pattern(&alert_fact("disk space low", vec![])), IncidentPattern::Generic);
}

#[test]
fn planner_selects_first_matching_runbook() {
    let runbooks = vec![
        ("crashloop_runbook", crashloop_runbook()),
        ("oomkill_runbook", oomkill_runbook()),
    ];

    let (name, steps) = select_runbook(IncidentPattern::CrashLoop, &runbooks).expect("selection");
    assert_eq!(name, "crashloop_runbook");
    assert_eq!(steps[0].name, "inspect-pod-logs");

    let (name, _steps) = select_runbook(IncidentPattern::OomKill, &runbooks).expect("selection");
    assert_eq!(name, "oomkill_runbook");

    assert!(select_runbook(IncidentPattern::Generic, &runbooks).is_none());
    assert!(select_runbook(IncidentPattern::CrashLoop, &[]).is_none());
}

#[test]
fn severity_parse_is_case_insensitive_with_high_default() {
    assert_eq!(parse_severity("LOW"), Severity::Low);
    assert_eq!(parse_severity("medium"), Severity::Medium);
    assert_eq!(parse_severity("Critical"), Severity::Critical);
    assert_eq!(parse_severity("whatever"), Severity::High);
}

#[test]
fn json_parser_builds_documents() {
    let v = parse_json(r#"{"a":1,"b":[true,"x"],"c":null}"#).expect("parse");
    assert_eq!(v.get_i64("a"), Some(1));
    let arr = v.get_arr("b").expect("array");
    assert_eq!(arr[0], JsonValue::Bool(true));
    assert_eq!(arr[1], JsonValue::Str(String::from("x")));
    assert_eq!(v.get("c"), Some(&JsonValue::Null));
    assert!(parse_json("{oops").is_none());
}

#[test]
fn tool_registry_simulates_failures_by_name() {
    let registry = ToolRegistry;
    let ok = registry
        .execute(rig_bdi::runbooks::ActionSchema {
            name: String::from("inspect-pod-logs"),
            effect: rig_bdi::effects::Effect::Observe,
        })
        .expect("ok");
    assert_eq!(ok.get_str("status").map(String::as_str), Some("ok"));
    assert_eq!(ok.get_str("action").map(String::as_str), Some("inspect-pod-logs"));

    let err = registry
        .execute(rig_bdi::runbooks::ActionSchema {
            name: String::from("FAILover-db"),
            effect: rig_bdi::effects::Effect::Mutate,
        })
        .unwrap_err();
    assert_eq!(err, "simulated failure for action FAILover-db");
}
