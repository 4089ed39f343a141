//! Source adapters.
//!
//! An adapter normalizes a raw JSON payload into a canonical alert record
//! and validates it. The generic adapter serves the plain webhook shapes;
//! the Alertmanager adapter unwraps the first alert of an Alertmanager
//! payload. A parsed record is then wrapped as a fact, labelled with the
//! source the ingest route names.

use vstd::prelude::*;
use crate::facts::{AlertFact, AlertSource, Fact, FactView, AlertFactView, map_severity, spec_parse_severity};
use crate::json::{JsonVal, JsonValue, spec_get, spec_get_arr, spec_str_items, str_items, view_arr};
use crate::llm::{spec_field_or, field_or};
use crate::registry::{
    CanonicalAlertV1, CanonicalAlertV1View, validate_alert_v1, spec_alert_valid,
    spec_validation_error,
};

verus! {

use vstd::string::StringExecFns;

/// The string a present key holds, the fallback key's string if the first
/// key is absent, or the default: presence decides which key is read, so a
/// present non-string value yields the default rather than the fallback.
pub open spec fn spec_str_or_alt(
    p: JsonVal,
    key: Seq<char>,
    alt: Seq<char>,
    dflt: Seq<char>,
) -> Seq<char> {
    match spec_get(p, key) {
        Some(v) => match v {
            JsonVal::Str(s) => s,
            _ => dflt,
        },
        None => match spec_get(p, alt) {
            Some(v) => match v {
                JsonVal::Str(s) => s,
                _ => dflt,
            },
            None => dflt,
        },
    }
}

fn str_or_alt(p: &JsonValue, key: &str, alt: &str, dflt: &str) -> (r: String)
    ensures
        r@ == spec_str_or_alt(p@, key@, alt@, dflt@),
{
    let v = match p.get(key) {
        Some(v) => v,
        None => match p.get(alt) {
            Some(v) => v,
            None => {
                return dflt.to_owned();
            },
        },
    };
    match v {
        JsonValue::Str(s) => s.clone(),
        _ => dflt.to_owned(),
    }
}

/// The tag list a payload carries: the string items of `tags`, or nothing.
pub open spec fn spec_payload_tags(p: JsonVal) -> Seq<Seq<char>> {
    match spec_get_arr(p, "tags"@) {
        Some(xs) => spec_str_items(xs),
        None => Seq::empty(),
    }
}

/// The canonical record the generic adapter builds, before validation.
pub open spec fn spec_generic_record(p: JsonVal, now: Seq<char>) -> CanonicalAlertV1View {
    CanonicalAlertV1View {
        schema: "alert.v1"@,
        id: spec_str_or_alt(p, "id"@, "incident_id"@, "unknown"@),
        title: spec_str_or_alt(p, "title"@, "alert_title"@, ""@),
        severity: spec_field_or(p, "severity"@, "high"@),
        tags: spec_payload_tags(p),
        source: "generic"@,
        occurred_at: now,
    }
}

/// What the generic adapter returns: its record when valid, else the
/// validation error.
pub open spec fn spec_generic_parse(p: JsonVal, now: Seq<char>) -> Result<
    CanonicalAlertV1View,
    Seq<char>,
> {
    let rec = spec_generic_record(p, now);
    if spec_alert_valid(rec.schema, rec.id, rec.title, rec.severity) {
        Ok(rec)
    } else {
        Err(spec_validation_error(rec.schema, rec.id, rec.title, rec.severity))
    }
}

/// An adapter from raw payloads to canonical alerts. The mathematical
/// parse is the contract every implementation carries.
pub trait FactAdapter {
    /// What this adapter parses a payload to, given the current time.
    spec fn spec_parse(&self, payload: JsonVal, now: Seq<char>) -> Result<
        CanonicalAlertV1View,
        Seq<char>,
    >;

    /// Parse a payload into a validated canonical alert.
    fn parse(&self, payload: &JsonValue, now: &str) -> (r: Result<CanonicalAlertV1, String>)
        ensures
            match r {
                Ok(alert) => self.spec_parse(payload@, now@) == Ok::<CanonicalAlertV1View, Seq<char>>(alert@),
                Err(e) => self.spec_parse(payload@, now@) == Err::<CanonicalAlertV1View, Seq<char>>(e@),
            },
    ;
}

/// Adapter for plain webhook payloads.
pub struct GenericAdapter;

/// Adapter for Alertmanager-shaped payloads.
pub struct AlertmanagerAdapter;

impl FactAdapter for GenericAdapter {
    open spec fn spec_parse(&self, payload: JsonVal, now: Seq<char>) -> Result<
        CanonicalAlertV1View,
        Seq<char>,
    > {
        spec_generic_parse(payload, now)
    }

    /// Read `id`/`incident_id`, `title`/`alert_title`, `severity` and
    /// `tags` with their documented defaults, stamp the record as a generic
    /// `alert.v1`, and validate it.
    fn parse(&self, payload: &JsonValue, now: &str) -> (r: Result<CanonicalAlertV1, String>) {
        let tags = match payload.get_arr("tags") {
            Some(xs) => {
                let t = str_items(xs);
                proof {
                    assert(t.deep_view() =~= t@.map_values(|s: String| s@));
                }
                t
            },
            None => {
                let t: Vec<String> = Vec::new();
                proof {
                    assert(t.deep_view() =~= Seq::<Seq<char>>::empty());
                }
                t
            },
        };
        let alert = CanonicalAlertV1 {
            schema: String::from_str("alert.v1"),
            id: str_or_alt(payload, "id", "incident_id", "unknown"),
            title: str_or_alt(payload, "title", "alert_title", ""),
            severity: field_or(payload, "severity", "high"),
            tags,
            source: String::from_str("generic"),
            occurred_at: now.to_owned(),
        };
        match validate_alert_v1(&alert) {
            Ok(()) => Ok(alert),
            Err(e) => Err(e),
        }
    }
}

/// The labels object of the first alert, or an empty object.
pub open spec fn spec_am_labels(first: JsonVal) -> JsonVal {
    match spec_get(first, "labels"@) {
        Some(v) => v,
        None => JsonVal::Obj(Seq::empty()),
    }
}

/// The annotations object of the first alert, or an empty object.
pub open spec fn spec_am_annotations(first: JsonVal) -> JsonVal {
    match spec_get(first, "annotations"@) {
        Some(v) => v,
        None => JsonVal::Obj(Seq::empty()),
    }
}

/// The Alertmanager title: the first present of `annotations.summary`,
/// `annotations.description` and `labels.alertname`; a present non-string
/// value, or nothing present, yields the default.
pub open spec fn spec_am_title(first: JsonVal) -> Seq<char> {
    let annotations = spec_am_annotations(first);
    let labels = spec_am_labels(first);
    match spec_get(annotations, "summary"@) {
        Some(v) => match v {
            JsonVal::Str(s) => s,
            _ => "alertmanager alert"@,
        },
        None => match spec_get(annotations, "description"@) {
            Some(v) => match v {
                JsonVal::Str(s) => s,
                _ => "alertmanager alert"@,
            },
            None => match spec_get(labels, "alertname"@) {
                Some(v) => match v {
                    JsonVal::Str(s) => s,
                    _ => "alertmanager alert"@,
                },
                None => "alertmanager alert"@,
            },
        },
    }
}

/// The Alertmanager id: `fingerprint`, else `labels.alertname`, else
/// `unknown`; presence decides which key is read.
pub open spec fn spec_am_id(first: JsonVal) -> Seq<char> {
    match spec_get(first, "fingerprint"@) {
        Some(v) => match v {
            JsonVal::Str(s) => s,
            _ => "unknown"@,
        },
        None => match spec_get(spec_am_labels(first), "alertname"@) {
            Some(v) => match v {
                JsonVal::Str(s) => s,
                _ => "unknown"@,
            },
            None => "unknown"@,
        },
    }
}

/// Every string-valued label flattened as `key:value`, in label order.
pub open spec fn spec_am_tags(labels: JsonVal) -> Seq<Seq<char>>
    decreases labels,
{
    match labels {
        JsonVal::Obj(fields) => spec_am_tag_fields(fields),
        _ => Seq::empty(),
    }
}

/// The `key:value` tags of a label field list.
pub open spec fn spec_am_tag_fields(fields: Seq<(Seq<char>, JsonVal)>) -> Seq<Seq<char>>
    decreases fields.len(),
{
    if fields.len() == 0 {
        Seq::empty()
    } else {
        let rest = spec_am_tag_fields(fields.drop_last());
        match fields.last().1 {
            JsonVal::Str(s) => rest.push(fields.last().0 + ":"@ + s),
            _ => rest,
        }
    }
}

/// The canonical record the Alertmanager adapter builds from the first
/// alert, before validation.
pub open spec fn spec_am_record(first: JsonVal, now: Seq<char>) -> CanonicalAlertV1View {
    let labels = spec_am_labels(first);
    CanonicalAlertV1View {
        schema: "alert.v1"@,
        id: spec_am_id(first),
        title: spec_am_title(first),
        severity: spec_field_or(labels, "severity"@, "high"@),
        tags: spec_am_tags(labels),
        source: "alertmanager"@,
        occurred_at: now,
    }
}

/// What the Alertmanager adapter returns: without `alerts[0]` it fails;
/// otherwise its record from the first alert when valid, else the
/// validation error.
pub open spec fn spec_am_parse(p: JsonVal, now: Seq<char>) -> Result<
    CanonicalAlertV1View,
    Seq<char>,
> {
    match spec_get_arr(p, "alerts"@) {
        Some(alerts) => {
            if alerts.len() == 0 {
                Err("alertmanager payload missing alerts[0]"@)
            } else {
                let rec = spec_am_record(alerts[0], now);
                if spec_alert_valid(rec.schema, rec.id, rec.title, rec.severity) {
                    Ok(rec)
                } else {
                    Err(spec_validation_error(rec.schema, rec.id, rec.title, rec.severity))
                }
            }
        },
        None => Err("alertmanager payload missing alerts[0]"@),
    }
}

fn am_tags(labels: &JsonValue) -> (r: Vec<String>)
    ensures
        r.deep_view() == spec_am_tags(labels@),
{
    let fields = match labels {
        JsonValue::Obj(fields) => fields,
        _ => {
            let r: Vec<String> = Vec::new();
            proof {
                assert(r.deep_view() =~= Seq::<Seq<char>>::empty());
            }
            return r;
        },
    };
    let ghost all = labels@->Obj_0;
    let mut out: Vec<String> = Vec::new();
    let mut i: usize = 0;
    proof {
        assert(out.deep_view() =~= spec_am_tag_fields(all.take(0)));
    }
    while i < fields.len()
        invariant
            labels@ is Obj,
            all == labels@->Obj_0,
            all.len() == fields@.len(),
            forall|j: int| 0 <= j < fields@.len()
                ==> all[j] == ((#[trigger] fields@[j]).0@, crate::json::view_json(fields@[j].1)),
            i <= fields@.len(),
            out.deep_view() == spec_am_tag_fields(all.take(i as int)),
        decreases fields@.len() - i,
    {
        let ghost next_prefix = all.take(i + 1 as int);
        proof {
            assert(next_prefix.drop_last() =~= all.take(i as int));
            assert(next_prefix.last() == all[i as int]);
        }
        let ghost prev = out.deep_view();
        let entry = &fields[i];
        match &entry.1 {
            JsonValue::Str(s) => {
                let mut tag = entry.0.clone();
                tag.append(":");
                tag.append(s.as_str());
                out.push(tag);
                proof {
                    assert(out.deep_view() =~= prev.push(all[i as int].0 + ":"@ + all[i as int].1->Str_0));
                }
            },
            _ => {},
        }
        i += 1;
    }
    proof {
        assert(all.take(all.len() as int) =~= all);
    }
    out
}

impl FactAdapter for AlertmanagerAdapter {
    open spec fn spec_parse(&self, payload: JsonVal, now: Seq<char>) -> Result<
        CanonicalAlertV1View,
        Seq<char>,
    > {
        spec_am_parse(payload, now)
    }

    /// Unwrap `alerts[0]` (failing without it), take the title from the
    /// annotations or the alert name, the severity from the labels, the id
    /// from the fingerprint or the alert name, flatten string labels as
    /// `key:value` tags, and validate the record.
    fn parse(&self, payload: &JsonValue, now: &str) -> (r: Result<CanonicalAlertV1, String>) {
        let alerts = match payload.get_arr("alerts") {
            Some(xs) => xs,
            None => {
                return Err(String::from_str("alertmanager payload missing alerts[0]"));
            },
        };
        if alerts.len() == 0 {
            return Err(String::from_str("alertmanager payload missing alerts[0]"));
        }
        let first = &alerts[0];
        proof {
            assert(view_arr(alerts@)[0] == first@);
        }
        let empty_obj = JsonValue::Obj(Vec::new());
        proof {
            assert(empty_obj@->Obj_0 =~= Seq::<(Seq<char>, JsonVal)>::empty());
            assert(empty_obj@ =~~= JsonVal::Obj(Seq::empty()));
        }
        let labels: &JsonValue = match first.get("labels") {
            Some(v) => v,
            None => &empty_obj,
        };
        let annotations: &JsonValue = match first.get("annotations") {
            Some(v) => v,
            None => &empty_obj,
        };

        let dflt_title = "alertmanager alert";
        let title: String = match annotations.get("summary") {
            Some(JsonValue::Str(s)) => s.clone(),
            Some(_) => dflt_title.to_owned(),
            None => match annotations.get("description") {
                Some(JsonValue::Str(s)) => s.clone(),
                Some(_) => dflt_title.to_owned(),
                None => match labels.get("alertname") {
                    Some(JsonValue::Str(s)) => s.clone(),
                    Some(_) => dflt_title.to_owned(),
                    None => dflt_title.to_owned(),
                },
            },
        };

        let severity = field_or(labels, "severity", "high");

        let id: String = match first.get("fingerprint") {
            Some(JsonValue::Str(s)) => s.clone(),
            Some(_) => String::from_str("unknown"),
            None => match labels.get("alertname") {
                Some(JsonValue::Str(s)) => s.clone(),
                Some(_) => String::from_str("unknown"),
                None => String::from_str("unknown"),
            },
        };

        let tags = am_tags(labels);

        let alert = CanonicalAlertV1 {
            schema: String::from_str("alert.v1"),
            id,
            title,
            severity,
            tags,
            source: String::from_str("alertmanager"),
            occurred_at: now.to_owned(),
        };
        match validate_alert_v1(&alert) {
            Ok(()) => Ok(alert),
            Err(e) => Err(e),
        }
    }
}

/// The fact a canonical alert becomes under a source label.
pub open spec fn spec_fact_of_alert(rec: CanonicalAlertV1View, source: AlertSource) -> FactView {
    FactView::Alert(
        AlertFactView {
            id: rec.id,
            source: source,
            severity: spec_parse_severity(rec.severity),
            title: rec.title,
            tags: rec.tags,
            received_at: rec.occurred_at,
        },
    )
}

/// Parse a payload with an adapter and wrap the record as a fact labelled
/// with the given source.
pub fn parse_with_adapter<A: FactAdapter>(
    payload: &JsonValue,
    adapter: A,
    source: AlertSource,
    now: &str,
) -> (r: Result<Fact, String>)
    ensures
        match r {
            Ok(f) => adapter.spec_parse(payload@, now@) matches Ok(rec)
                && f@ == spec_fact_of_alert(rec, source),
            Err(e) => adapter.spec_parse(payload@, now@) == Err::<CanonicalAlertV1View, Seq<char>>(e@),
        },
{
    let canonical = match adapter.parse(payload, now) {
        Ok(c) => c,
        Err(e) => {
            return Err(e);
        },
    };
    Ok(
        Fact::Alert(
            AlertFact {
                id: canonical.id,
                source,
                severity: map_severity(canonical.severity.as_str()),
                title: canonical.title,
                tags: canonical.tags,
                received_at: canonical.occurred_at,
            },
        ),
    )
}

/// Parse a plain webhook payload as a generic-source fact.
pub fn parse_generic(payload: &JsonValue, now: &str) -> (r: Result<Fact, String>)
    ensures
        match r {
            Ok(f) => spec_generic_parse(payload@, now@) matches Ok(rec)
                && f@ == spec_fact_of_alert(rec, AlertSource::Generic),
            Err(e) => spec_generic_parse(payload@, now@) == Err::<CanonicalAlertV1View, Seq<char>>(e@),
        },
{
    parse_with_adapter(payload, GenericAdapter, AlertSource::Generic, now)
}

/// Parse a Datadog webhook payload: the generic adapter, Datadog source.
pub fn parse_datadog(payload: &JsonValue, now: &str) -> (r: Result<Fact, String>)
    ensures
        match r {
            Ok(f) => spec_generic_parse(payload@, now@) matches Ok(rec)
                && f@ == spec_fact_of_alert(rec, AlertSource::Datadog),
            Err(e) => spec_generic_parse(payload@, now@) == Err::<CanonicalAlertV1View, Seq<char>>(e@),
        },
{
    parse_with_adapter(payload, GenericAdapter, AlertSource::Datadog, now)
}

/// Parse a PagerDuty webhook payload: the generic adapter, PagerDuty
/// source.
pub fn parse_pagerduty(payload: &JsonValue, now: &str) -> (r: Result<Fact, String>)
    ensures
        match r {
            Ok(f) => spec_generic_parse(payload@, now@) matches Ok(rec)
                && f@ == spec_fact_of_alert(rec, AlertSource::PagerDuty),
            Err(e) => spec_generic_parse(payload@, now@) == Err::<CanonicalAlertV1View, Seq<char>>(e@),
        },
{
    parse_with_adapter(payload, GenericAdapter, AlertSource::PagerDuty, now)
}

/// Parse an Alertmanager payload; the fact keeps the generic source label.
pub fn parse_alertmanager(payload: &JsonValue, now: &str) -> (r: Result<Fact, String>)
    ensures
        match r {
            Ok(f) => spec_am_parse(payload@, now@) matches Ok(rec)
                && f@ == spec_fact_of_alert(rec, AlertSource::Generic),
            Err(e) => spec_am_parse(payload@, now@) == Err::<CanonicalAlertV1View, Seq<char>>(e@),
        },
{
    parse_with_adapter(payload, AlertmanagerAdapter, AlertSource::Generic, now)
}

} // verus!
