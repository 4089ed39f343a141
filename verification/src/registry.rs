//! The canonical alert schema and its validator.
//!
//! Every adapter normalizes a raw payload into a [`CanonicalAlertV1`] and
//! validates it before the record is turned into a fact.

use vstd::prelude::*;
use crate::strutil::{spec_lower, spec_blank, lower_chars, chars_eq_str, is_blank, str_eq, string_from_chars};

verus! {

use vstd::string::StringExecFns;

/// The source-neutral alert record, schema version 1.
#[derive(Debug, PartialEq, Eq)]
pub struct CanonicalAlertV1 {
    pub schema: String,
    pub id: String,
    pub title: String,
    pub severity: String,
    pub tags: Vec<String>,
    pub source: String,
    pub occurred_at: String,
}

/// Mathematical value of a canonical alert.
pub struct CanonicalAlertV1View {
    pub schema: Seq<char>,
    pub id: Seq<char>,
    pub title: Seq<char>,
    pub severity: Seq<char>,
    pub tags: Seq<Seq<char>>,
    pub source: Seq<char>,
    pub occurred_at: Seq<char>,
}

impl View for CanonicalAlertV1 {
    type V = CanonicalAlertV1View;

    open spec fn view(&self) -> CanonicalAlertV1View {
        CanonicalAlertV1View {
            schema: self.schema@,
            id: self.id@,
            title: self.title@,
            severity: self.severity@,
            tags: self.tags.deep_view(),
            source: self.source@,
            occurred_at: self.occurred_at@,
        }
    }
}

impl Clone for CanonicalAlertV1 {
    /// Copy with the same field values.
    fn clone(&self) -> (res: Self)
        ensures
            res@ == self@,
    {
        let res = CanonicalAlertV1 {
            schema: self.schema.clone(),
            id: self.id.clone(),
            title: self.title.clone(),
            severity: self.severity.clone(),
            tags: self.tags.clone(),
            source: self.source.clone(),
            occurred_at: self.occurred_at.clone(),
        };
        proof {
            assert(res.tags.deep_view() =~= self.tags.deep_view());
        }
        res
    }
}

/// A recognized severity: `low`, `medium`, `high` or `critical`, compared
/// case-insensitively.
pub open spec fn spec_severity_ok(s: Seq<char>) -> bool {
    spec_lower(s) == "low"@ || spec_lower(s) == "medium"@ || spec_lower(s) == "high"@
        || spec_lower(s) == "critical"@
}

/// A canonical alert is valid when its schema tag is `alert.v1`, its id and
/// title are non-blank, and its severity is recognized.
pub open spec fn spec_alert_valid(
    schema: Seq<char>,
    id: Seq<char>,
    title: Seq<char>,
    severity: Seq<char>,
) -> bool {
    schema == "alert.v1"@ && !spec_blank(id) && !spec_blank(title) && spec_severity_ok(severity)
}

/// The message validation fails with, given the first violated rule.
pub open spec fn spec_validation_error(
    schema: Seq<char>,
    id: Seq<char>,
    title: Seq<char>,
    severity: Seq<char>,
) -> Seq<char> {
    if schema != "alert.v1"@ {
        "unsupported schema '"@ + schema + "'"@
    } else if spec_blank(id) {
        "id is required"@
    } else if spec_blank(title) {
        "title is required"@
    } else {
        "invalid severity '"@ + spec_lower(severity) + "'"@
    }
}

/// Accepts exactly the alerts of [`spec_alert_valid`]: schema `alert.v1`,
/// non-blank id and title, and a severity among `low`, `medium`, `high`,
/// `critical` compared case-insensitively.
pub fn validate_alert_v1(alert: &CanonicalAlertV1) -> (r: Result<(), String>)
    ensures
        r is Ok <==> spec_alert_valid(alert.schema@, alert.id@, alert.title@, alert.severity@),
        r matches Err(e) ==> e@ == spec_validation_error(
            alert.schema@,
            alert.id@,
            alert.title@,
            alert.severity@,
        ),
{
    if !str_eq(alert.schema.as_str(), "alert.v1") {
        let mut msg = String::from_str("unsupported schema '");
        msg.append(alert.schema.as_str());
        msg.append("'");
        return Err(msg);
    }
    if is_blank(alert.id.as_str()) {
        return Err(String::from_str("id is required"));
    }
    if is_blank(alert.title.as_str()) {
        return Err(String::from_str("title is required"));
    }
    let lowered = lower_chars(alert.severity.as_str());
    if chars_eq_str(&lowered, "low") || chars_eq_str(&lowered, "medium")
        || chars_eq_str(&lowered, "high") || chars_eq_str(&lowered, "critical") {
        Ok(())
    } else {
        let mut msg = String::from_str("invalid severity '");
        let lowered_string = string_from_chars(&lowered);
        msg.append(lowered_string.as_str());
        msg.append("'");
        Err(msg)
    }
}

} // verus!
