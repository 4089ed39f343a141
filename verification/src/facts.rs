//! Typed facts.
//!
//! A fact is an immutable assertion about the world; the one variant today
//! is an alert. Facts are stored in event details as JSON documents, with
//! the encoding and decoding defined here, exactly inverse to one another.

use vstd::prelude::*;
use crate::json::{JsonVal, JsonValue, view_arr, view_json, spec_get, spec_get_str, spec_get_arr};
use crate::strutil::{spec_lower, str_eq, lower_chars, chars_eq_str};

verus! {

use vstd::string::StringExecFns;

/// Severity of an alert, from least to most urgent.
#[derive(Clone, Copy, Debug, PartialEq, Eq, Hash, Structural)]
pub enum Severity {
    Low,
    Medium,
    High,
    Critical,
}

/// Where an alert came from.
#[derive(Clone, Copy, Debug, PartialEq, Eq, Hash, Structural)]
pub enum AlertSource {
    Generic,
    Datadog,
    PagerDuty,
}

/// An alert, the atomic unit of belief.
#[derive(Debug, PartialEq, Eq, Hash)]
pub struct AlertFact {
    pub id: String,
    pub source: AlertSource,
    pub severity: Severity,
    pub title: String,
    pub tags: Vec<String>,
    pub received_at: String,
}

/// A typed fact; currently always an alert.
#[derive(Debug, PartialEq, Eq, Hash)]
pub enum Fact {
    Alert(AlertFact),
}

/// Mathematical value of an alert.
pub struct AlertFactView {
    pub id: Seq<char>,
    pub source: AlertSource,
    pub severity: Severity,
    pub title: Seq<char>,
    pub tags: Seq<Seq<char>>,
    pub received_at: Seq<char>,
}

/// Mathematical value of a fact.
pub enum FactView {
    Alert(AlertFactView),
}

impl View for AlertFact {
    type V = AlertFactView;

    open spec fn view(&self) -> AlertFactView {
        AlertFactView {
            id: self.id@,
            source: self.source,
            severity: self.severity,
            title: self.title@,
            tags: self.tags.deep_view(),
            received_at: self.received_at@,
        }
    }
}

impl View for Fact {
    type V = FactView;

    open spec fn view(&self) -> FactView {
        match self {
            Fact::Alert(a) => FactView::Alert(a@),
        }
    }
}

impl DeepView for AlertFact {
    type V = AlertFactView;

    open spec fn deep_view(&self) -> AlertFactView {
        self@
    }
}

impl DeepView for Fact {
    type V = FactView;

    open spec fn deep_view(&self) -> FactView {
        self@
    }
}

impl Clone for AlertFact {
    /// Copy with the same mathematical value.
    fn clone(&self) -> (res: Self)
        ensures
            res@ == self@,
    {
        let res = AlertFact {
            id: self.id.clone(),
            source: self.source,
            severity: self.severity,
            title: self.title.clone(),
            tags: self.tags.clone(),
            received_at: self.received_at.clone(),
        };
        proof {
            assert(res.tags.deep_view() =~= self.tags.deep_view());
        }
        res
    }
}

impl Clone for Fact {
    /// Copy with the same mathematical value.
    fn clone(&self) -> (res: Self)
        ensures
            res@ == self@,
    {
        match self {
            Fact::Alert(a) => Fact::Alert(a.clone()),
        }
    }
}

/// The incident a fact belongs to: for an alert, its id.
pub open spec fn spec_incident_id_of(f: FactView) -> Seq<char> {
    match f {
        FactView::Alert(a) => a.id,
    }
}

/// The incident a fact belongs to.
pub fn incident_id_from_fact(fact: &Fact) -> (r: &String)
    ensures
        r@ == spec_incident_id_of(fact@),
{
    match fact {
        Fact::Alert(a) => &a.id,
    }
}

/// Lower-case name of a severity.
pub open spec fn spec_severity_name(s: Severity) -> Seq<char> {
    match s {
        Severity::Low => "low"@,
        Severity::Medium => "medium"@,
        Severity::High => "high"@,
        Severity::Critical => "critical"@,
    }
}

/// The severity a string names, compared case-insensitively; anything
/// unknown is `High`.
pub open spec fn spec_parse_severity(s: Seq<char>) -> Severity {
    if spec_lower(s) == "low"@ {
        Severity::Low
    } else if spec_lower(s) == "medium"@ {
        Severity::Medium
    } else if spec_lower(s) == "critical"@ {
        Severity::Critical
    } else {
        Severity::High
    }
}

/// Lower-case name of a severity.
pub fn severity_to_string(severity: Severity) -> (r: String)
    ensures
        r@ == spec_severity_name(severity),
{
    match severity {
        Severity::Low => String::from_str("low"),
        Severity::Medium => String::from_str("medium"),
        Severity::High => String::from_str("high"),
        Severity::Critical => String::from_str("critical"),
    }
}

/// Parse a severity name case-insensitively; anything unknown is `High`.
pub fn parse_severity(value: &str) -> (r: Severity)
    ensures
        r == spec_parse_severity(value@),
{
    let lowered = lower_chars(value);
    if chars_eq_str(&lowered, "low") {
        Severity::Low
    } else if chars_eq_str(&lowered, "medium") {
        Severity::Medium
    } else if chars_eq_str(&lowered, "critical") {
        Severity::Critical
    } else {
        Severity::High
    }
}

/// Parse a severity name case-insensitively; anything unknown is `High`.
pub fn map_severity(value: &str) -> (r: Severity)
    ensures
        r == spec_parse_severity(value@),
{
    parse_severity(value)
}

/// Variant name of a severity, as stored inside a fact document.
pub open spec fn spec_severity_variant(s: Severity) -> Seq<char> {
    match s {
        Severity::Low => "Low"@,
        Severity::Medium => "Medium"@,
        Severity::High => "High"@,
        Severity::Critical => "Critical"@,
    }
}

/// The severity whose variant bears the given name.
pub open spec fn spec_severity_of_variant(s: Seq<char>) -> Option<Severity> {
    if s == "Low"@ {
        Some(Severity::Low)
    } else if s == "Medium"@ {
        Some(Severity::Medium)
    } else if s == "High"@ {
        Some(Severity::High)
    } else if s == "Critical"@ {
        Some(Severity::Critical)
    } else {
        None
    }
}

/// Variant name of an alert source, as stored inside a fact document.
pub open spec fn spec_source_variant(s: AlertSource) -> Seq<char> {
    match s {
        AlertSource::Generic => "Generic"@,
        AlertSource::Datadog => "Datadog"@,
        AlertSource::PagerDuty => "PagerDuty"@,
    }
}

/// The alert source whose variant bears the given name.
pub open spec fn spec_source_of_variant(s: Seq<char>) -> Option<AlertSource> {
    if s == "Generic"@ {
        Some(AlertSource::Generic)
    } else if s == "Datadog"@ {
        Some(AlertSource::Datadog)
    } else if s == "PagerDuty"@ {
        Some(AlertSource::PagerDuty)
    } else {
        None
    }
}

fn severity_variant_string(s: Severity) -> (r: String)
    ensures
        r@ == spec_severity_variant(s),
{
    match s {
        Severity::Low => String::from_str("Low"),
        Severity::Medium => String::from_str("Medium"),
        Severity::High => String::from_str("High"),
        Severity::Critical => String::from_str("Critical"),
    }
}

fn severity_of_variant(s: &str) -> (r: Option<Severity>)
    ensures
        r == spec_severity_of_variant(s@),
{
    if str_eq(s, "Low") {
        Some(Severity::Low)
    } else if str_eq(s, "Medium") {
        Some(Severity::Medium)
    } else if str_eq(s, "High") {
        Some(Severity::High)
    } else if str_eq(s, "Critical") {
        Some(Severity::Critical)
    } else {
        None
    }
}

fn source_variant_string(s: AlertSource) -> (r: String)
    ensures
        r@ == spec_source_variant(s),
{
    match s {
        AlertSource::Generic => String::from_str("Generic"),
        AlertSource::Datadog => String::from_str("Datadog"),
        AlertSource::PagerDuty => String::from_str("PagerDuty"),
    }
}

fn source_of_variant(s: &str) -> (r: Option<AlertSource>)
    ensures
        r == spec_source_of_variant(s@),
{
    if str_eq(s, "Generic") {
        Some(AlertSource::Generic)
    } else if str_eq(s, "Datadog") {
        Some(AlertSource::Datadog)
    } else if str_eq(s, "PagerDuty") {
        Some(AlertSource::PagerDuty)
    } else {
        None
    }
}

/// The JSON document a fact is stored as.
pub open spec fn spec_fact_json(f: FactView) -> JsonVal {
    match f {
        FactView::Alert(a) => JsonVal::Obj(
            seq![
                (
                    "Alert"@,
                    JsonVal::Obj(
                        seq![
                            ("id"@, JsonVal::Str(a.id)),
                            ("source"@, JsonVal::Str(spec_source_variant(a.source))),
                            ("severity"@, JsonVal::Str(spec_severity_variant(a.severity))),
                            ("title"@, JsonVal::Str(a.title)),
                            ("tags"@, JsonVal::Arr(a.tags.map_values(|t: Seq<char>| JsonVal::Str(t)))),
                            ("received_at"@, JsonVal::Str(a.received_at)),
                        ],
                    ),
                ),
            ],
        ),
    }
}

/// Encode a fact as the JSON document it is stored as.
pub fn fact_to_json(f: &Fact) -> (r: JsonValue)
    ensures
        r@ == spec_fact_json(f@),
{
    match f {
        Fact::Alert(a) => {
            let mut tags: Vec<JsonValue> = Vec::new();
            let mut i: usize = 0;
            while i < a.tags.len()
                invariant
                    i <= a.tags@.len(),
                    tags@.len() == i,
                    forall|j: int| 0 <= j < i
                        ==> (#[trigger] tags@[j])@ == JsonVal::Str(a.tags@[j]@),
                decreases a.tags@.len() - i,
            {
                tags.push(JsonValue::Str(a.tags[i].clone()));
                i += 1;
            }
            let mut inner: Vec<(String, JsonValue)> = Vec::new();
            inner.push((String::from_str("id"), JsonValue::Str(a.id.clone())));
            inner.push((String::from_str("source"), JsonValue::Str(source_variant_string(a.source))));
            inner.push((String::from_str("severity"), JsonValue::Str(severity_variant_string(a.severity))));
            inner.push((String::from_str("title"), JsonValue::Str(a.title.clone())));
            inner.push((String::from_str("tags"), JsonValue::Arr(tags)));
            inner.push((String::from_str("received_at"), JsonValue::Str(a.received_at.clone())));
            let mut outer: Vec<(String, JsonValue)> = Vec::new();
            outer.push((String::from_str("Alert"), JsonValue::Obj(inner)));
            let r = JsonValue::Obj(outer);
            proof {
                reveal_with_fuel(view_json, 4);
                let tv = view_json(JsonValue::Arr(tags));
                assert(tv->Arr_0 =~= a@.tags.map_values(|t: Seq<char>| JsonVal::Str(t)));
                let iv = view_json(JsonValue::Obj(inner));
                assert(iv->Obj_0 =~= spec_fact_json(f@)->Obj_0[0].1->Obj_0);
                assert(iv =~~= spec_fact_json(f@)->Obj_0[0].1);
                assert(r@->Obj_0 =~= spec_fact_json(f@)->Obj_0);
                assert(r@ =~~= spec_fact_json(f@));
            }
            r
        },
    }
}

/// The fact a stored JSON document decodes to, if it is well-formed: an
/// `Alert` object whose `id`, `source`, `severity`, `title` and
/// `received_at` are strings with known variant names and whose `tags` is an
/// array of strings.
pub open spec fn spec_fact_of_json(v: JsonVal) -> Option<FactView> {
    match spec_get(v, "Alert"@) {
        Some(alert) => {
            if spec_get_str(alert, "id"@) is Some && spec_get_str(alert, "source"@) is Some
                && spec_severity_field(alert) is Some && spec_get_str(alert, "title"@) is Some
                && spec_get_str(alert, "received_at"@) is Some && spec_tags_field(alert) is Some
                && spec_source_of_variant(spec_get_str(alert, "source"@)->Some_0) is Some {
                Some(
                    FactView::Alert(
                        AlertFactView {
                            id: spec_get_str(alert, "id"@)->Some_0,
                            source: spec_source_of_variant(spec_get_str(alert, "source"@)->Some_0)->Some_0,
                            severity: spec_severity_field(alert)->Some_0,
                            title: spec_get_str(alert, "title"@)->Some_0,
                            tags: spec_tags_field(alert)->Some_0,
                            received_at: spec_get_str(alert, "received_at"@)->Some_0,
                        },
                    ),
                )
            } else {
                None
            }
        },
        None => None,
    }
}

/// The severity variant stored under `severity`, if it is a known name.
pub open spec fn spec_severity_field(alert: JsonVal) -> Option<Severity> {
    match spec_get_str(alert, "severity"@) {
        Some(s) => spec_severity_of_variant(s),
        None => None,
    }
}

/// The tag list stored under `tags`, if every element is a string.
pub open spec fn spec_tags_field(alert: JsonVal) -> Option<Seq<Seq<char>>> {
    match spec_get_arr(alert, "tags"@) {
        Some(xs) => spec_all_strings(xs),
        None => None,
    }
}

/// The strings of a sequence that must be all strings.
pub open spec fn spec_all_strings(xs: Seq<JsonVal>) -> Option<Seq<Seq<char>>> {
    if forall|i: int| 0 <= i < xs.len() ==> (#[trigger] xs[i]) is Str {
        Some(Seq::new(xs.len(), |i: int| xs[i]->Str_0))
    } else {
        None
    }
}

/// Decode the strings of an array that must be all strings.
fn all_strings(xs: &Vec<JsonValue>) -> (r: Option<Vec<String>>)
    ensures
        match r {
            Some(out) => spec_all_strings(view_arr(xs@)) == Some(out.deep_view()),
            None => spec_all_strings(view_arr(xs@)) is None,
        },
{
    let mut out: Vec<String> = Vec::new();
    let mut i: usize = 0;
    while i < xs.len()
        invariant
            i <= xs@.len(),
            out@.len() == i,
            forall|j: int| 0 <= j < i ==> view_arr(xs@)[j] is Str,
            forall|j: int| 0 <= j < i ==> out.deep_view()[j] == view_arr(xs@)[j]->Str_0,
        decreases xs@.len() - i,
    {
        match &xs[i] {
            JsonValue::Str(s) => {
                let ghost prev = out.deep_view();
                out.push(s.clone());
                proof {
                    assert(out.deep_view() =~= prev.push(s@));
                }
            },
            _ => {
                proof {
                    assert(!(view_arr(xs@)[i as int] is Str));
                }
                return None;
            },
        }
        i += 1;
    }
    proof {
        assert(spec_all_strings(view_arr(xs@)) is Some);
        assert(out.deep_view() =~= spec_all_strings(view_arr(xs@))->Some_0);
    }
    Some(out)
}

/// Encoding a fact as its stored document and decoding that document again
/// is the identity: the log's stored form of a fact loses nothing.
pub proof fn lemma_fact_json_round_trip(f: FactView)
    ensures
        spec_fact_of_json(spec_fact_json(f)) == Some(f),
{
    reveal_with_fuel(crate::json::spec_obj_get, 8);
    reveal_strlit("Alert");
    reveal_strlit("id");
    reveal_strlit("source");
    reveal_strlit("severity");
    reveal_strlit("title");
    reveal_strlit("tags");
    reveal_strlit("received_at");
    reveal_strlit("Generic");
    reveal_strlit("Datadog");
    reveal_strlit("PagerDuty");
    reveal_strlit("Low");
    reveal_strlit("Medium");
    reveal_strlit("High");
    reveal_strlit("Critical");
    assert("id"@.len() == 2);
    assert("source"@.len() == 6);
    assert("severity"@.len() == 8);
    assert("title"@.len() == 5);
    assert("tags"@.len() == 4);
    assert("received_at"@.len() == 11);
    assert("Generic"@.len() == 7);
    assert("Datadog"@.len() == 7);
    assert("PagerDuty"@.len() == 9);
    assert("Generic"@[0] == 'G');
    assert("Datadog"@[0] == 'D');
    assert("Low"@.len() == 3);
    assert("Medium"@.len() == 6);
    assert("High"@.len() == 4);
    assert("Critical"@.len() == 8);
    match f {
        FactView::Alert(a) => {
            let d = spec_fact_json(f);
            let inner = d->Obj_0[0].1;
            assert(spec_get(d, "Alert"@) == Some(inner));
            assert(spec_get_str(inner, "id"@) == Some(a.id));
            assert(spec_get_str(inner, "source"@) == Some(spec_source_variant(a.source)));
            assert(spec_source_of_variant(spec_source_variant(a.source)) == Some(a.source));
            assert(spec_get_str(inner, "severity"@) == Some(spec_severity_variant(a.severity)));
            assert(spec_severity_of_variant(spec_severity_variant(a.severity)) == Some(a.severity));
            assert(spec_get_str(inner, "title"@) == Some(a.title));
            assert(spec_get_str(inner, "received_at"@) == Some(a.received_at));
            let tag_docs = a.tags.map_values(|t: Seq<char>| JsonVal::Str(t));
            assert(spec_get_arr(inner, "tags"@) == Some(tag_docs));
            assert(forall|i: int| 0 <= i < tag_docs.len() ==> (#[trigger] tag_docs[i]) is Str);
            assert(spec_all_strings(tag_docs) is Some);
            assert(spec_all_strings(tag_docs)->Some_0 =~= a.tags);
            assert(spec_fact_of_json(d)->Some_0->Alert_0 == a);
        },
    }
}

/// Decode a stored fact document; `None` exactly on malformed documents.
pub fn fact_from_json(v: &JsonValue) -> (r: Option<Fact>)
    ensures
        match r {
            Some(f) => spec_fact_of_json(v@) == Some(f@),
            None => spec_fact_of_json(v@) is None,
        },
{
    let alert = match v.get("Alert") {
        Some(a) => a,
        None => {
            return None;
        },
    };
    let id = match alert.get_str("id") {
        Some(s) => s,
        None => {
            return None;
        },
    };
    let source_name = match alert.get_str("source") {
        Some(s) => s,
        None => {
            return None;
        },
    };
    let source = match source_of_variant(source_name.as_str()) {
        Some(s) => s,
        None => {
            return None;
        },
    };
    let severity_name = match alert.get_str("severity") {
        Some(s) => s,
        None => {
            return None;
        },
    };
    let severity = match severity_of_variant(severity_name.as_str()) {
        Some(s) => s,
        None => {
            return None;
        },
    };
    let title = match alert.get_str("title") {
        Some(s) => s,
        None => {
            return None;
        },
    };
    let received_at = match alert.get_str("received_at") {
        Some(s) => s,
        None => {
            return None;
        },
    };
    let tag_values = match alert.get_arr("tags") {
        Some(xs) => xs,
        None => {
            return None;
        },
    };
    let tags = match all_strings(tag_values) {
        Some(ts) => ts,
        None => {
            return None;
        },
    };
    Some(
        Fact::Alert(
            AlertFact {
                id: id.clone(),
                source,
                severity,
                title: title.clone(),
                tags,
                received_at: received_at.clone(),
            },
        ),
    )
}

} // verus!
