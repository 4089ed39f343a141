//! Commands that write to the event log.
//!
//! Every mutation of the system is an append: upserting or retracting a
//! fact, resolving a suggestion, responding to an escalation, and
//! reprocessing an incident against the built-in runbooks. Nothing here
//! rewrites history; each contract pins the events appended.

use vstd::prelude::*;
use crate::event_log::{Event, EventLog, EventType, EventView, spec_events_for_incident, spec_with_id};
use crate::executor::{execute_plan, spec_is_intent_event};
use crate::facts::{
    AlertFact, AlertSource, Fact, FactView, AlertFactView, fact_to_json, spec_fact_json,
    parse_severity, spec_parse_severity,
};
use crate::json::{JsonVal, JsonValue};
use crate::llm::{SuggestedFact, SuggestedFactView, spec_field_or, field_or, str_list, spec_str_list};
use crate::planner::{select_runbook, spec_select_runbook, spec_runbooks_view};
use crate::projections::{BeliefView, materialize_fact_map, spec_beliefs};
use crate::rules::{detect_pattern, spec_detect_pattern};
use crate::runbooks::{
    ActionSchema, ActionView, crashloop_runbook, oomkill_runbook, runbook_json, spec_builtin_runbooks,
    spec_crashloop_actions, spec_oomkill_actions, spec_runbook_json,
};
use crate::strutil::{spec_lower, lower_chars, chars_eq_str};

verus! {

use vstd::string::StringExecFns;

/// A human's answer to an escalation.
#[derive(Debug)]
pub enum EscalationResponse {
    Approve,
    Reject { reason: String },
    TakeOver,
}

/// Mathematical value of an escalation response.
pub enum EscalationResponseView {
    Approve,
    Reject(Seq<char>),
    TakeOver,
}

impl View for EscalationResponse {
    type V = EscalationResponseView;

    open spec fn view(&self) -> EscalationResponseView {
        match self {
            EscalationResponse::Approve => EscalationResponseView::Approve,
            EscalationResponse::Reject { reason } => EscalationResponseView::Reject(reason@),
            EscalationResponse::TakeOver => EscalationResponseView::TakeOver,
        }
    }
}

impl Clone for EscalationResponse {
    /// Copy with the same mathematical value.
    fn clone(&self) -> (res: Self)
        ensures
            res@ == self@,
    {
        match self {
            EscalationResponse::Approve => EscalationResponse::Approve,
            EscalationResponse::Reject { reason } => EscalationResponse::Reject {
                reason: reason.clone(),
            },
            EscalationResponse::TakeOver => EscalationResponse::TakeOver,
        }
    }
}

/// The fact an upsert stores: a generic-source alert assembled from the
/// given pieces, received now.
pub open spec fn spec_upserted_fact(
    fact_id: Seq<char>,
    title: Seq<char>,
    severity: Seq<char>,
    tags: Seq<Seq<char>>,
    now: Seq<char>,
) -> FactView {
    FactView::Alert(
        AlertFactView {
            id: fact_id,
            source: AlertSource::Generic,
            severity: spec_parse_severity(severity),
            title: title,
            tags: tags,
            received_at: now,
        },
    )
}

/// The `FactAsserted` event an upsert appends, except for its id.
pub open spec fn spec_upsert_event(
    incident_id: Seq<char>,
    f: FactView,
    fact_id: Seq<char>,
    now: Seq<char>,
) -> EventView {
    EventView {
        id: None,
        incident_id: incident_id,
        event_type: EventType::FactAsserted,
        description: "fact upserted: "@ + fact_id,
        details: Some(spec_fact_json(f)),
        timestamp: now,
    }
}

/// Assert (or replace) an alert fact by hand: appends one `FactAsserted`
/// event holding the assembled fact, keyed by `fact_id`.
pub fn upsert_alert_fact(
    log: &mut EventLog,
    incident_id: String,
    fact_id: String,
    title: String,
    severity: String,
    tags: Vec<String>,
    now: &str,
) -> (r: Result<(), String>)
    requires
        old(log).wf(),
        old(log)@.len() < i64::MAX,
    ensures
        final(log).wf(),
        r is Ok,
        final(log)@ =~= old(log)@.push(
            spec_with_id(
                spec_upsert_event(
                    incident_id@,
                    spec_upserted_fact(fact_id@, title@, severity@, tags.deep_view(), now@),
                    fact_id@,
                    now@,
                ),
                (old(log)@.len() + 1) as i64,
            ),
        ),
{
    let fact = Fact::Alert(
        AlertFact {
            id: fact_id.clone(),
            source: AlertSource::Generic,
            severity: parse_severity(severity.as_str()),
            title,
            tags,
            received_at: now.to_owned(),
        },
    );
    let mut description = String::from_str("fact upserted: ");
    description.append(fact_id.as_str());
    let event = Event {
        id: None,
        incident_id,
        event_type: EventType::FactAsserted,
        description,
        details: Some(fact_to_json(&fact)),
        timestamp: now.to_owned(),
    };
    let _ = log.append(&event);
    Ok(())
}

/// The `FactRetracted` event a retraction appends, except for its id.
pub open spec fn spec_retract_event(
    incident_id: Seq<char>,
    fact_id: Seq<char>,
    now: Seq<char>,
) -> EventView {
    EventView {
        id: None,
        incident_id: incident_id,
        event_type: EventType::FactRetracted,
        description: "fact retracted: "@ + fact_id,
        details: Some(JsonVal::Obj(seq![("fact_id"@, JsonVal::Str(fact_id))])),
        timestamp: now,
    }
}

/// Retract a fact: appends one `FactRetracted` event naming the fact id.
pub fn retract_fact(
    log: &mut EventLog,
    incident_id: String,
    fact_id: String,
    now: &str,
) -> (r: Result<(), String>)
    requires
        old(log).wf(),
        old(log)@.len() < i64::MAX,
    ensures
        final(log).wf(),
        r is Ok,
        final(log)@ =~= old(log)@.push(
            spec_with_id(spec_retract_event(incident_id@, fact_id@, now@), (old(log)@.len() + 1) as i64),
        ),
{
    let mut description = String::from_str("fact retracted: ");
    description.append(fact_id.as_str());
    let mut fields: Vec<(String, JsonValue)> = Vec::new();
    fields.push((String::from_str("fact_id"), JsonValue::Str(fact_id)));
    let details = JsonValue::Obj(fields);
    proof {
        reveal_with_fuel(crate::json::view_json, 3);
        assert(details@->Obj_0 =~= spec_retract_event(incident_id@, fact_id@, now@).details->0->Obj_0);
        assert(details@ =~~= spec_retract_event(incident_id@, fact_id@, now@).details->0);
    }
    let event = Event {
        id: None,
        incident_id,
        event_type: EventType::FactRetracted,
        description,
        details: Some(details),
        timestamp: now.to_owned(),
    };
    let _ = log.append(&event);
    Ok(())
}

/// The details a recorded suggestion carries.
pub open spec fn spec_suggestion_details(s: SuggestedFactView) -> JsonVal {
    JsonVal::Obj(
        seq![
            ("fact_id"@, JsonVal::Str(s.fact_id)),
            ("title"@, JsonVal::Str(s.title)),
            ("severity"@, JsonVal::Str(s.severity)),
            ("tags"@, JsonVal::Arr(s.tags.map_values(|t: Seq<char>| JsonVal::Str(t)))),
            ("rationale"@, JsonVal::Str(s.rationale)),
        ],
    )
}

/// The `FactSuggested` event one suggestion appends, except for its id.
pub open spec fn spec_suggestion_event(
    incident_id: Seq<char>,
    s: SuggestedFactView,
    now: Seq<char>,
) -> EventView {
    EventView {
        id: None,
        incident_id: incident_id,
        event_type: EventType::FactSuggested,
        description: "llm suggested fact: "@ + s.fact_id,
        details: Some(spec_suggestion_details(s)),
        timestamp: now,
    }
}

fn suggestion_details(s: &SuggestedFact) -> (r: JsonValue)
    ensures
        r@ == spec_suggestion_details(s@),
{
    let mut tags: Vec<JsonValue> = Vec::new();
    let mut i: usize = 0;
    while i < s.tags.len()
        invariant
            i <= s.tags@.len(),
            tags@.len() == i,
            forall|j: int| 0 <= j < i ==> (#[trigger] tags@[j])@ == JsonVal::Str(s.tags@[j]@),
        decreases s.tags@.len() - i,
    {
        tags.push(JsonValue::Str(s.tags[i].clone()));
        i += 1;
    }
    let mut fields: Vec<(String, JsonValue)> = Vec::new();
    fields.push((String::from_str("fact_id"), JsonValue::Str(s.fact_id.clone())));
    fields.push((String::from_str("title"), JsonValue::Str(s.title.clone())));
    fields.push((String::from_str("severity"), JsonValue::Str(s.severity.clone())));
    fields.push((String::from_str("tags"), JsonValue::Arr(tags)));
    fields.push((String::from_str("rationale"), JsonValue::Str(s.rationale.clone())));
    let r = JsonValue::Obj(fields);
    proof {
        reveal_with_fuel(crate::json::view_json, 4);
        assert(r@->Obj_0[3].1->Arr_0 =~= s@.tags.map_values(|t: Seq<char>| JsonVal::Str(t)));
        assert(r@->Obj_0 =~= spec_suggestion_details(s@)->Obj_0);
        assert(r@ =~~= spec_suggestion_details(s@));
    }
    r
}

/// Record a batch of LLM fact suggestions: one `FactSuggested` event each,
/// in order. The LLM call that produced them happens outside the library;
/// this is the append half of suggestion generation.
pub fn record_fact_suggestions(
    log: &mut EventLog,
    incident_id: &str,
    suggestions: &Vec<SuggestedFact>,
    now: &str,
) -> (r: Result<(), String>)
    requires
        old(log).wf(),
        old(log)@.len() + suggestions@.len() <= i64::MAX,
    ensures
        final(log).wf(),
        r is Ok,
        final(log)@.len() == old(log)@.len() + suggestions@.len(),
        final(log)@.subrange(0, old(log)@.len() as int) == old(log)@,
        forall|j: int| 0 <= j < suggestions@.len() ==> final(log)@[old(log)@.len() + j]
            == spec_with_id(
                spec_suggestion_event(incident_id@, (#[trigger] suggestions@[j])@, now@),
                (old(log)@.len() + j + 1) as i64,
            ),
{
    let ghost base = old(log)@.len() as int;
    let mut i: usize = 0;
    while i < suggestions.len()
        invariant
            log.wf(),
            base == old(log)@.len(),
            base + suggestions@.len() <= i64::MAX,
            i <= suggestions@.len(),
            log@.len() == base + i,
            log@.subrange(0, base) == old(log)@,
            forall|j: int| 0 <= j < i ==> log@[base + j] == spec_with_id(
                spec_suggestion_event(incident_id@, (#[trigger] suggestions@[j])@, now@),
                (base + j + 1) as i64,
            ),
        decreases suggestions@.len() - i,
    {
        let s = &suggestions[i];
        let mut description = String::from_str("llm suggested fact: ");
        description.append(s.fact_id.as_str());
        let event = Event {
            id: None,
            incident_id: incident_id.to_owned(),
            event_type: EventType::FactSuggested,
            description,
            details: Some(suggestion_details(s)),
            timestamp: now.to_owned(),
        };
        let ghost before = log@;
        let _ = log.append(&event);
        proof {
            assert(log@.subrange(0, base) =~= before.subrange(0, base));
        }
        i += 1;
    }
    Ok(())
}

/// The facts a suggestion round is generated from: the incident's
/// materialized facts, most recently asserted last. Without an active fact
/// the round is refused — there is nothing to ground a suggestion on — and
/// nothing is appended. The LLM call itself happens outside the library;
/// its parsed result comes back through [`record_fact_suggestions`].
pub fn facts_for_suggestions(log: &EventLog, incident_id: &str) -> (r: Result<Vec<Fact>, String>)
    requires
        log.wf(),
    ensures
        ({
            let beliefs = spec_beliefs(spec_events_for_incident(log@, incident_id@));
            match r {
                Ok(v) => beliefs.len() > 0
                    && v.deep_view() == beliefs.map_values(|b: BeliefView| b.fact),
                Err(e) => beliefs.len() == 0 && e@ == "no active facts for incident"@,
            }
        }),
{
    let events = match log.events_for_incident(incident_id) {
        Ok(evs) => evs,
        Err(e) => {
            return Err(e);
        },
    };
    let beliefs = materialize_fact_map(&events);
    if beliefs.len() == 0 {
        return Err(String::from_str("no active facts for incident"));
    }
    let mut out: Vec<Fact> = Vec::new();
    let mut i: usize = 0;
    while i < beliefs.len()
        invariant
            i <= beliefs@.len(),
            beliefs.deep_view().len() == beliefs@.len(),
            out.deep_view().len() == i,
            forall|j: int| 0 <= j < i
                ==> out.deep_view()[j] == (#[trigger] beliefs.deep_view()[j]).fact,
        decreases beliefs@.len() - i,
    {
        let ghost prev = out.deep_view();
        out.push(beliefs[i].fact.clone());
        proof {
            assert(out.deep_view() =~= prev.push(beliefs.deep_view()[i as int].fact));
        }
        i += 1;
    }
    proof {
        assert(out.deep_view()
            =~= spec_beliefs(spec_events_for_incident(log@, incident_id@)).map_values(
            |b: BeliefView| b.fact,
        ));
    }
    Ok(out)
}

/// Is the decision the word `approve`, compared case-insensitively?
pub open spec fn spec_is_approval(decision: Seq<char>) -> bool {
    spec_lower(decision) == "approve"@
}

/// The first `FactSuggested` event carrying the given event id.
pub open spec fn spec_find_suggested(events: Seq<EventView>, k: i64) -> Option<EventView>
    decreases events.len(),
{
    if events.len() == 0 {
        None
    } else if events[0].event_type == EventType::FactSuggested && events[0].id == Some(k) {
        Some(events[0])
    } else {
        spec_find_suggested(events.drop_first(), k)
    }
}

/// The fact an approved suggestion asserts, assembled from the suggestion's
/// details with the documented defaults.
pub open spec fn spec_fact_of_suggestion(d: JsonVal, now: Seq<char>) -> FactView {
    FactView::Alert(
        AlertFactView {
            id: spec_field_or(d, "fact_id"@, "suggested"@),
            source: AlertSource::Generic,
            severity: spec_parse_severity(spec_field_or(d, "severity"@, "high"@)),
            title: spec_field_or(d, "title"@, "Suggested fact"@),
            tags: spec_str_list(d, "tags"@),
            received_at: now,
        },
    )
}

/// The `FactAsserted` event an approval appends, except for its id.
pub open spec fn spec_approval_event(incident_id: Seq<char>, d: JsonVal, now: Seq<char>) -> EventView {
    EventView {
        id: None,
        incident_id: incident_id,
        event_type: EventType::FactAsserted,
        description: "approved llm suggested fact"@,
        details: Some(spec_fact_json(spec_fact_of_suggestion(d, now))),
        timestamp: now,
    }
}

/// The `FactSuggestionResolved` event a decision appends, except for its id.
pub open spec fn spec_resolution_event(
    incident_id: Seq<char>,
    k: i64,
    decision: Seq<char>,
    now: Seq<char>,
) -> EventView {
    EventView {
        id: None,
        incident_id: incident_id,
        event_type: EventType::FactSuggestionResolved,
        description: "fact suggestion resolved"@,
        details: Some(
            JsonVal::Obj(
                seq![
                    ("suggestion_event_id"@, JsonVal::Int(k)),
                    ("decision"@, JsonVal::Str(decision)),
                ],
            ),
        ),
        timestamp: now,
    }
}

fn find_suggested(events: &Vec<Event>, k: i64) -> (r: Option<Event>)
    ensures
        match r {
            Some(e) => spec_find_suggested(events.deep_view(), k) == Some(e@),
            None => spec_find_suggested(events.deep_view(), k) is None,
        },
{
    let ghost all = events.deep_view();
    proof {
        assert(all.skip(0) =~= all);
    }
    let mut i: usize = 0;
    while i < events.len()
        invariant
            all == events.deep_view(),
            all.len() == events@.len(),
            i <= events@.len(),
            spec_find_suggested(all, k) == spec_find_suggested(all.skip(i as int), k),
        decreases events@.len() - i,
    {
        proof {
            assert(all.skip(i as int)[0] == all[i as int]);
        }
        let e = &events[i];
        let is_suggested = e.event_type == EventType::FactSuggested;
        let id_matches = match e.id {
            Some(id) => id == k,
            None => false,
        };
        if is_suggested && id_matches {
            return Some(e.clone());
        }
        proof {
            assert(all.skip(i as int).drop_first() =~= all.skip(i + 1 as int));
        }
        i += 1;
    }
    proof {
        assert(all.skip(i as int).len() == 0);
    }
    None
}

/// Decide a pending fact suggestion.
///
/// The suggestion must exist as a `FactSuggested` event with the given id;
/// otherwise nothing is appended and the decision fails. An approval (the
/// word `approve`, case-insensitive) first asserts the suggested fact —
/// failing, with nothing appended, if the suggestion carries no details —
/// and every decided suggestion gets one `FactSuggestionResolved` event
/// naming it.
pub fn decide_fact_suggestion(
    log: &mut EventLog,
    incident_id: String,
    suggestion_event_id: i64,
    decision: String,
    now: &str,
) -> (r: Result<(), String>)
    requires
        old(log).wf(),
        old(log)@.len() + 2 <= i64::MAX,
    ensures
        final(log).wf(),
        match spec_find_suggested(
            spec_events_for_incident(old(log)@, incident_id@),
            suggestion_event_id,
        ) {
            None => {
                &&& r matches Err(e) && e@ == "suggestion event not found"@
                &&& final(log)@ == old(log)@
            },
            Some(found) => {
                if spec_is_approval(decision@) {
                    match found.details {
                        None => {
                            &&& r matches Err(e) && e@ == "suggestion payload missing"@
                            &&& final(log)@ == old(log)@
                        },
                        Some(d) => {
                            &&& r is Ok
                            &&& final(log)@ =~= old(log)@
                                .push(spec_with_id(
                                    spec_approval_event(incident_id@, d, now@),
                                    (old(log)@.len() + 1) as i64,
                                ))
                                .push(spec_with_id(
                                    spec_resolution_event(
                                        incident_id@,
                                        suggestion_event_id,
                                        decision@,
                                        now@,
                                    ),
                                    (old(log)@.len() + 2) as i64,
                                ))
                        },
                    }
                } else {
                    &&& r is Ok
                    &&& final(log)@ =~= old(log)@.push(
                        spec_with_id(
                            spec_resolution_event(incident_id@, suggestion_event_id, decision@, now@),
                            (old(log)@.len() + 1) as i64,
                        ),
                    )
                }
            },
        },
{
    let events = match log.events_for_incident(incident_id.as_str()) {
        Ok(evs) => evs,
        Err(e) => {
            return Err(e);
        },
    };
    let suggested = match find_suggested(&events, suggestion_event_id) {
        Some(e) => e,
        None => {
            return Err(String::from_str("suggestion event not found"));
        },
    };
    let lowered = lower_chars(decision.as_str());
    if chars_eq_str(&lowered, "approve") {
        let d = match suggested.details {
            Some(d) => d,
            None => {
                return Err(String::from_str("suggestion payload missing"));
            },
        };
        let fact = Fact::Alert(
            AlertFact {
                id: field_or(&d, "fact_id", "suggested"),
                source: AlertSource::Generic,
                severity: parse_severity(field_or(&d, "severity", "high").as_str()),
                title: field_or(&d, "title", "Suggested fact"),
                tags: str_list(&d, "tags"),
                received_at: now.to_owned(),
            },
        );
        let event = Event {
            id: None,
            incident_id: incident_id.clone(),
            event_type: EventType::FactAsserted,
            description: String::from_str("approved llm suggested fact"),
            details: Some(fact_to_json(&fact)),
            timestamp: now.to_owned(),
        };
        let _ = log.append(&event);
    }
    let ghost decision_view = decision@;
    let mut fields: Vec<(String, JsonValue)> = Vec::new();
    fields.push((String::from_str("suggestion_event_id"), JsonValue::Int(suggestion_event_id)));
    fields.push((String::from_str("decision"), JsonValue::Str(decision)));
    let details = JsonValue::Obj(fields);
    proof {
        reveal_with_fuel(crate::json::view_json, 3);
        assert(details@->Obj_0 =~= seq![
            ("suggestion_event_id"@, JsonVal::Int(suggestion_event_id)),
            ("decision"@, JsonVal::Str(decision_view)),
        ]);
        assert(details@ =~~= spec_resolution_event(
            incident_id@,
            suggestion_event_id,
            decision_view,
            now@,
        ).details->0);
    }
    let resolution = Event {
        id: None,
        incident_id,
        event_type: EventType::FactSuggestionResolved,
        description: String::from_str("fact suggestion resolved"),
        details: Some(details),
        timestamp: now.to_owned(),
    };
    let _ = log.append(&resolution);
    Ok(())
}

/// The JSON document an escalation response is recorded as.
pub open spec fn spec_response_json(resp: EscalationResponseView) -> JsonVal {
    match resp {
        EscalationResponseView::Approve => JsonVal::Str("Approve"@),
        EscalationResponseView::Reject(reason) => JsonVal::Obj(
            seq![("Reject"@, JsonVal::Obj(seq![("reason"@, JsonVal::Str(reason))]))],
        ),
        EscalationResponseView::TakeOver => JsonVal::Str("TakeOver"@),
    }
}

/// The `EscalationResponded` event a response appends, except for its id.
pub open spec fn spec_response_event(
    incident_id: Seq<char>,
    resp: EscalationResponseView,
    now: Seq<char>,
) -> EventView {
    EventView {
        id: None,
        incident_id: incident_id,
        event_type: EventType::EscalationResponded,
        description: "escalation response recorded"@,
        details: Some(spec_response_json(resp)),
        timestamp: now,
    }
}

fn response_json(resp: &EscalationResponse) -> (r: JsonValue)
    ensures
        r@ == spec_response_json(resp@),
{
    match resp {
        EscalationResponse::Approve => JsonValue::Str(String::from_str("Approve")),
        EscalationResponse::Reject { reason } => {
            let mut inner: Vec<(String, JsonValue)> = Vec::new();
            inner.push((String::from_str("reason"), JsonValue::Str(reason.clone())));
            let mut outer: Vec<(String, JsonValue)> = Vec::new();
            outer.push((String::from_str("Reject"), JsonValue::Obj(inner)));
            let r = JsonValue::Obj(outer);
            proof {
                reveal_with_fuel(crate::json::view_json, 4);
                assert(r@->Obj_0[0].1->Obj_0 =~= spec_response_json(resp@)->Obj_0[0].1->Obj_0);
                assert(r@->Obj_0 =~= spec_response_json(resp@)->Obj_0);
                assert(r@ =~~= spec_response_json(resp@));
            }
            r
        },
        EscalationResponse::TakeOver => JsonValue::Str(String::from_str("TakeOver")),
    }
}

/// Record a human's escalation response: appends one `EscalationResponded`
/// event carrying the response.
pub fn append_escalation_response_event(
    log: &mut EventLog,
    incident_id: &str,
    response: &EscalationResponse,
    now: &str,
) -> (r: Result<(), String>)
    requires
        old(log).wf(),
        old(log)@.len() < i64::MAX,
    ensures
        final(log).wf(),
        r is Ok,
        final(log)@ =~= old(log)@.push(
            spec_with_id(
                spec_response_event(incident_id@, response@, now@),
                (old(log)@.len() + 1) as i64,
            ),
        ),
{
    let event = Event {
        id: None,
        incident_id: incident_id.to_owned(),
        event_type: EventType::EscalationResponded,
        description: String::from_str("escalation response recorded"),
        details: Some(response_json(response)),
        timestamp: now.to_owned(),
    };
    let _ = log.append(&event);
    Ok(())
}

/// The `Resolved` event a human approval appends, except for its id.
pub open spec fn spec_human_resolved_event(incident_id: Seq<char>, now: Seq<char>) -> EventView {
    EventView {
        id: None,
        incident_id: incident_id,
        event_type: EventType::Resolved,
        description: "resolved by human approval"@,
        details: None,
        timestamp: now,
    }
}

/// Apply a human's decision on an escalation: record the response, and on
/// approval also mark the incident resolved.
pub fn record_escalation_decision(
    log: &mut EventLog,
    incident_id: String,
    response: &EscalationResponse,
    now: &str,
) -> (r: Result<(), String>)
    requires
        old(log).wf(),
        old(log)@.len() + 2 <= i64::MAX,
    ensures
        final(log).wf(),
        r is Ok,
        final(log)@ =~= (if response@ is Approve {
            old(log)@
                .push(spec_with_id(
                    spec_response_event(incident_id@, response@, now@),
                    (old(log)@.len() + 1) as i64,
                ))
                .push(spec_with_id(
                    spec_human_resolved_event(incident_id@, now@),
                    (old(log)@.len() + 2) as i64,
                ))
        } else {
            old(log)@.push(
                spec_with_id(
                    spec_response_event(incident_id@, response@, now@),
                    (old(log)@.len() + 1) as i64,
                ),
            )
        }),
{
    let _ = append_escalation_response_event(log, incident_id.as_str(), response, now);
    let approve = match response {
        EscalationResponse::Approve => true,
        _ => false,
    };
    if approve {
        let event = Event {
            id: None,
            incident_id,
            event_type: EventType::Resolved,
            description: String::from_str("resolved by human approval"),
            details: None,
            timestamp: now.to_owned(),
        };
        let _ = log.append(&event);
    }
    Ok(())
}

/// The `PlanSelected` event a reprocess appends, except for its id.
pub open spec fn spec_reprocess_plan_event(
    incident_id: Seq<char>,
    name: Seq<char>,
    steps: Seq<ActionView>,
    now: Seq<char>,
) -> EventView {
    EventView {
        id: None,
        incident_id: incident_id,
        event_type: EventType::PlanSelected,
        description: "reprocess selected runbook: "@ + name,
        details: Some(spec_runbook_json(steps)),
        timestamp: now,
    }
}

/// The `Resolved` event a successful reprocess appends, except for its id.
pub open spec fn spec_reprocess_resolved_event(incident_id: Seq<char>, now: Seq<char>) -> EventView {
    EventView {
        id: None,
        incident_id: incident_id,
        event_type: EventType::Resolved,
        description: "incident resolved by reprocess"@,
        details: None,
        timestamp: now,
    }
}

/// The document the reprocess stub executor returns for a step: a fixed
/// status and the tool's name.
pub open spec fn spec_reprocess_output(name: Seq<char>) -> JsonVal {
    JsonVal::Obj(seq![("status"@, JsonVal::Str("ok"@)), ("tool"@, JsonVal::Str(name))])
}

/// What a reprocess selects: the first built-in runbook matching the
/// pattern of the incident's most recently asserted still-active fact.
pub open spec fn spec_reprocess_selection(
    log: Seq<EventView>,
    incident_id: Seq<char>,
) -> Option<(Seq<char>, Seq<ActionView>)> {
    let beliefs = spec_beliefs(spec_events_for_incident(log, incident_id));
    if beliefs.len() == 0 {
        None
    } else {
        spec_select_runbook(spec_detect_pattern(beliefs.last().fact), spec_builtin_runbooks())
    }
}

/// Re-run planning and execution for an incident from its materialized
/// facts, with a stub tool that always succeeds.
///
/// The most recently asserted still-active fact is classified; a
/// matching built-in runbook is announced with a `PlanSelected` event,
/// every step leaves its intent/result pair, and a `Resolved` event closes
/// the run. Without an active fact, or without a matching runbook, nothing
/// is appended and the reprocess fails with the corresponding error.
pub fn reprocess_incident(log: &mut EventLog, incident_id: String, now: &str) -> (r: Result<
    (),
    String,
>)
    requires
        old(log).wf(),
        old(log)@.len() + 6 <= i64::MAX,
    ensures
        final(log).wf(),
        spec_beliefs(spec_events_for_incident(old(log)@, incident_id@)).len() == 0 ==> {
            &&& r matches Err(e) && e@ == "no active facts for incident"@
            &&& final(log)@ == old(log)@
        },
        spec_beliefs(spec_events_for_incident(old(log)@, incident_id@)).len() > 0 ==> match spec_reprocess_selection(
            old(log)@,
            incident_id@,
        ) {
            None => {
                &&& r matches Err(e) && e@ == "no matching deterministic runbook"@
                &&& final(log)@ == old(log)@
            },
            Some(sel) => {
                &&& r is Ok
                &&& final(log)@.len() == old(log)@.len() + 2 + 2 * sel.1.len()
                &&& final(log)@.subrange(0, old(log)@.len() as int) == old(log)@
                &&& final(log)@[old(log)@.len() as int] == spec_with_id(
                    spec_reprocess_plan_event(incident_id@, sel.0, sel.1, now@),
                    (old(log)@.len() + 1) as i64,
                )
                &&& forall|j: int| 0 <= j < sel.1.len() ==> spec_is_intent_event(
                    final(log)@[old(log)@.len() + 1 + 2 * j],
                    incident_id@,
                    #[trigger] sel.1[j],
                    now@,
                )
                &&& forall|j: int| 0 <= j < sel.1.len() ==> crate::executor::spec_is_done_event(
                    final(log)@[old(log)@.len() + 2 + 2 * j],
                    incident_id@,
                    #[trigger] sel.1[j],
                    spec_reprocess_output(sel.1[j].name),
                    now@,
                )
                &&& final(log)@.last() == spec_with_id(
                    spec_reprocess_resolved_event(incident_id@, now@),
                    final(log)@.len() as i64,
                )
            },
        },
{
    let events = match log.events_for_incident(incident_id.as_str()) {
        Ok(evs) => evs,
        Err(e) => {
            return Err(e);
        },
    };
    let beliefs = materialize_fact_map(&events);
    if beliefs.len() == 0 {
        return Err(String::from_str("no active facts for incident"));
    }
    let fact = &beliefs[beliefs.len() - 1].fact;

    let mut runbooks: Vec<(&'static str, crate::runbooks::Runbook)> = Vec::new();
    runbooks.push(("crashloop_runbook", crashloop_runbook()));
    runbooks.push(("oomkill_runbook", oomkill_runbook()));
    proof {
        assert(spec_runbooks_view(runbooks@) =~= spec_builtin_runbooks());
    }

    let pattern = detect_pattern(fact);
    let selection = select_runbook(pattern, runbooks.as_slice());
    let (runbook_name, selected) = match selection {
        Some(pair) => pair,
        None => {
            return Err(String::from_str("no matching deterministic runbook"));
        },
    };

    let mut description = String::from_str("reprocess selected runbook: ");
    description.append(runbook_name);
    let plan_event = Event {
        id: None,
        incident_id: incident_id.clone(),
        event_type: EventType::PlanSelected,
        description,
        details: Some(runbook_json(&selected)),
        timestamp: now.to_owned(),
    };
    let ghost log0 = log@;
    let _ = log.append(&plan_event);
    let ghost log1 = log@;

    let stub = |action: ActionSchema| -> (out: Result<JsonValue, String>)
        ensures
            out matches Ok(v) && v@ == spec_reprocess_output(action.name@),
        {
            let ghost name_view = action.name@;
            let mut fields: Vec<(String, JsonValue)> = Vec::new();
            fields.push((String::from_str("status"), JsonValue::Str(String::from_str("ok"))));
            fields.push((String::from_str("tool"), JsonValue::Str(action.name)));
            let out = JsonValue::Obj(fields);
            proof {
                reveal_with_fuel(crate::json::view_json, 3);
                assert(out@->Obj_0 =~= spec_reprocess_output(name_view)->Obj_0);
                assert(out@ =~~= spec_reprocess_output(name_view));
            }
            Ok(out)
        };
    proof {
        assert(forall|a: ActionSchema| call_requires(stub, (a,)));
        assert(forall|a: ActionSchema, out: Result<JsonValue, String>|
            call_ensures(stub, (a,), out)
                ==> out is Ok && out->Ok_0@ == spec_reprocess_output(a.name@));
        reveal_with_fuel(crate::planner::spec_first_matching, 3);
        assert(spec_builtin_runbooks().drop_first()
            =~= seq![("oomkill_runbook"@, spec_oomkill_actions())]);
        assert(selected.deep_view().len() == 2);
    }
    let exec_result = execute_plan(log, incident_id.as_str(), &selected, &stub, now);
    let ghost log2 = log@;
    match exec_result {
        Ok(()) => {},
        Err(_) => {
            proof {
                let (arg, emsg): (ActionSchema, String) = choose|arg: ActionSchema, emsg: String|
                    call_ensures(stub, (arg,), Err::<JsonValue, String>(emsg));
                assert(false);
            }
        },
    }
    let resolved = Event {
        id: None,
        incident_id,
        event_type: EventType::Resolved,
        description: String::from_str("incident resolved by reprocess"),
        details: None,
        timestamp: now.to_owned(),
    };
    let _ = log.append(&resolved);
    proof {
        let ghost sel = spec_reprocess_selection(log0, incident_id@);
        let selpair = sel->0;
        let sname = selpair.0;
        let ssteps = selpair.1;
        let n = ssteps.len();
        assert(log1 == log0.push(spec_with_id(
            spec_reprocess_plan_event(incident_id@, sname, ssteps, now@),
            (log0.len() + 1) as i64,
        )));
        assert(log@.len() == log0.len() + 2 + 2 * n);
        assert(log@.subrange(0, log0.len() as int) =~= log0) by {
            assert forall|i: int| 0 <= i < log0.len()
                implies log@.subrange(0, log0.len() as int)[i] == log0[i] by {
                assert(log2.subrange(0, log1.len() as int)[i] == log2[i]);
                assert(log1[i] == log0[i]);
            }
        }
        assert(log@[log0.len() as int] == log2[log0.len() as int]);
        assert(log2.subrange(0, log1.len() as int)[log0.len() as int]
            == log2[log0.len() as int]);
        assert(log2[log0.len() as int] == log1[log0.len() as int]);
        assert forall|j: int| 0 <= j < n implies spec_is_intent_event(
            log@[log0.len() + 1 + 2 * j],
            incident_id@,
            ssteps[j],
            now@,
        ) by {
            assert(spec_is_intent_event(log2[log1.len() + 2 * j], incident_id@, ssteps[j], now@));
            assert(log@[log1.len() + 2 * j] == log2[log1.len() + 2 * j]);
        }
        let (argsw, outsw): (Seq<ActionSchema>, Seq<JsonValue>) = choose|
            a2: Seq<ActionSchema>,
            o2: Seq<JsonValue>,
        |
            crate::executor::spec_results_from_tool(
                stub,
                log2,
                log1.len() as int,
                incident_id@,
                selected.deep_view(),
                n as int,
                now@,
                a2,
                o2,
            );
        assert forall|j: int| 0 <= j < n implies crate::executor::spec_is_done_event(
            log@[log0.len() + 2 + 2 * j],
            incident_id@,
            ssteps[j],
            spec_reprocess_output(ssteps[j].name),
            now@,
        ) by {
            assert(call_ensures(stub, ((argsw[j]),), Ok::<JsonValue, String>(outsw[j])));
            assert(outsw[j]@ == spec_reprocess_output(argsw[j].name@));
            assert(argsw[j]@ == selected.deep_view()[j]);
            assert(selected.deep_view()[j] == ssteps[j]);
            assert(crate::executor::spec_is_done_event(
                log2[log1.len() + 2 * j + 1],
                incident_id@,
                ssteps[j],
                outsw[j]@,
                now@,
            ));
            assert(log@[log1.len() + 2 * j + 1] == log2[log1.len() + 2 * j + 1]);
        }
        assert(log@.last() == spec_with_id(
            spec_reprocess_resolved_event(incident_id@, now@),
            log@.len() as i64,
        ));
    }
    Ok(())
}

} // verus!
