use rig_bdi::registry::{CanonicalAlertV1, validate_alert_v1};

fn alert(schema: &str, id: &str, title: &str, severity: &str) -> CanonicalAlertV1 {
    CanonicalAlertV1 {
        schema: String::from(schema),
        id: String::from(id),
        title: String::from(title),
        severity: String::from(severity),
        tags: vec![String::from("cpu")],
        source: String::from("generic"),
        occurred_at: String::from("1"),
    }
}

#[test]
fn validates_alert_v1() {
    let alert = CanonicalAlertV1 {
        schema: String::from("alert.v1"),
        id: String::from("inc-1"),
        title: String::from("cpu high"),
        severity: String::from("high"),
        tags: vec![String::from("cpu")],
        source: String::from("generic"),
        occurred_at: String::from("1"),
    };
    assert!(validate_alert_v1(&alert).is_ok());
}

#[test]
fn validation_rejects_each_broken_invariant() {
    let bad_schema = alert("alert.v2", "inc-1", "cpu high", "high");
    assert_eq!(validate_alert_v1(&bad_schema).unwrap_err(), "unsupported schema 'alert.v2'");

    let blank_id = alert("alert.v1", "   ", "cpu high", "high");
    assert_eq!(validate_alert_v1(&blank_id).unwrap_err(), "id is required");

    let blank_title = alert("alert.v1", "inc-1", "\t\n", "high");
    assert_eq!(validate_alert_v1(&blank_title).unwrap_err(), "title is required");

    let bad_severity = alert("alert.v1", "inc-1", "cpu high", "Bogus");
    assert_eq!(validate_alert_v1(&bad_severity).unwrap_err(), "invalid severity 'bogus'");
}

#[test]
fn validation_treats_unicode_whitespace_as_blank() {
    let blank_id = alert("alert.v1", "\u{00A0}\u{2003}", "cpu high", "high");
    assert_eq!(validate_alert_v1(&blank_id).unwrap_err(), "id is required");
}

#[test]
fn validation_accepts_severity_case_insensitively() {
    for sev in ["LOW", "Medium", "hIgH", "CRITICAL"] {
        let ok = alert("alert.v1", "inc-1", "cpu high", sev);
        assert!(validate_alert_v1(&ok).is_ok(), "severity {sev} should pass");
    }
}
