//! Read models over the event log.
//!
//! Every view the UI shows — incident list, beliefs, timeline, current
//! plan, tool calls, suggested facts — is a pure function of the events of
//! one incident. Each projection has a mathematical replay function and an
//! executable one proved equal to it.

use vstd::prelude::*;
use crate::event_log::{Event, EventLog, EventType, EventView, spec_event_type_name, spec_events_for_incident, event_type_name};
use crate::facts::{Fact, FactView, spec_fact_of_json, fact_from_json, spec_severity_name, severity_to_string};
use crate::json::{JsonVal, JsonValue, spec_get_str, spec_get_i64};
use crate::llm::{spec_str_list, spec_field_or, field_or, str_list};
use crate::strutil::str_eq;

verus! {

use vstd::pervasive::VecAdditionalExecFns;
use vstd::string::StringExecFns;

/// One row of the incident list.
#[derive(Clone, Debug, Default)]
pub struct IncidentDto {
    pub id: String,
    pub status: String,
    pub severity: String,
    pub title: String,
    pub started_at: String,
    pub current_phase: String,
}

/// Mathematical value of an incident row.
pub struct IncidentDtoView {
    pub id: Seq<char>,
    pub status: Seq<char>,
    pub severity: Seq<char>,
    pub title: Seq<char>,
    pub started_at: Seq<char>,
    pub current_phase: Seq<char>,
}

impl View for IncidentDto {
    type V = IncidentDtoView;

    open spec fn view(&self) -> IncidentDtoView {
        IncidentDtoView {
            id: self.id@,
            status: self.status@,
            severity: self.severity@,
            title: self.title@,
            started_at: self.started_at@,
            current_phase: self.current_phase@,
        }
    }
}

impl DeepView for IncidentDto {
    type V = IncidentDtoView;

    open spec fn deep_view(&self) -> IncidentDtoView {
        self@
    }
}

/// One materialized belief.
#[derive(Clone, Debug)]
pub struct FactDto {
    pub fact_id: String,
    pub fact_type: String,
    pub summary: String,
    pub severity: String,
    pub tags: Vec<String>,
    pub timestamp: String,
}

/// Mathematical value of a belief row.
pub struct FactDtoView {
    pub fact_id: Seq<char>,
    pub fact_type: Seq<char>,
    pub summary: Seq<char>,
    pub severity: Seq<char>,
    pub tags: Seq<Seq<char>>,
    pub timestamp: Seq<char>,
}

impl View for FactDto {
    type V = FactDtoView;

    open spec fn view(&self) -> FactDtoView {
        FactDtoView {
            fact_id: self.fact_id@,
            fact_type: self.fact_type@,
            summary: self.summary@,
            severity: self.severity@,
            tags: self.tags.deep_view(),
            timestamp: self.timestamp@,
        }
    }
}

impl DeepView for FactDto {
    type V = FactDtoView;

    open spec fn deep_view(&self) -> FactDtoView {
        self@
    }
}

/// The current plan: its steps and the step in progress.
#[derive(Clone, Debug)]
pub struct PlanDto {
    pub steps: Vec<PlanStepDto>,
    pub current_step: usize,
}

/// One plan step with its last recorded status.
#[derive(Clone, Debug)]
pub struct PlanStepDto {
    pub name: String,
    pub effect: String,
    pub status: String,
}

/// Mathematical value of a plan step row.
pub struct PlanStepView {
    pub name: Seq<char>,
    pub effect: Seq<char>,
    pub status: Seq<char>,
}

impl View for PlanStepDto {
    type V = PlanStepView;

    open spec fn view(&self) -> PlanStepView {
        PlanStepView { name: self.name@, effect: self.effect@, status: self.status@ }
    }
}

impl DeepView for PlanStepDto {
    type V = PlanStepView;

    open spec fn deep_view(&self) -> PlanStepView {
        self@
    }
}

/// One timeline row.
#[derive(Clone, Debug)]
pub struct TimelineEventDto {
    pub id: i64,
    pub event_type: String,
    pub description: String,
    pub timestamp: String,
}

/// Mathematical value of a timeline row.
pub struct TimelineEventDtoView {
    pub id: i64,
    pub event_type: Seq<char>,
    pub description: Seq<char>,
    pub timestamp: Seq<char>,
}

impl View for TimelineEventDto {
    type V = TimelineEventDtoView;

    open spec fn view(&self) -> TimelineEventDtoView {
        TimelineEventDtoView {
            id: self.id,
            event_type: self.event_type@,
            description: self.description@,
            timestamp: self.timestamp@,
        }
    }
}

impl DeepView for TimelineEventDto {
    type V = TimelineEventDtoView;

    open spec fn deep_view(&self) -> TimelineEventDtoView {
        self@
    }
}

/// One tool-call row: an intent or a result.
#[derive(Clone, Debug)]
pub struct ToolCallDto {
    pub event_id: i64,
    pub incident_id: String,
    pub tool_name: String,
    pub phase: String,
    pub status: String,
    pub effect: String,
    pub summary: String,
    pub timestamp: String,
}

/// Mathematical value of a tool-call row.
pub struct ToolCallDtoView {
    pub event_id: i64,
    pub incident_id: Seq<char>,
    pub tool_name: Seq<char>,
    pub phase: Seq<char>,
    pub status: Seq<char>,
    pub effect: Seq<char>,
    pub summary: Seq<char>,
    pub timestamp: Seq<char>,
}

impl View for ToolCallDto {
    type V = ToolCallDtoView;

    open spec fn view(&self) -> ToolCallDtoView {
        ToolCallDtoView {
            event_id: self.event_id,
            incident_id: self.incident_id@,
            tool_name: self.tool_name@,
            phase: self.phase@,
            status: self.status@,
            effect: self.effect@,
            summary: self.summary@,
            timestamp: self.timestamp@,
        }
    }
}

impl DeepView for ToolCallDto {
    type V = ToolCallDtoView;

    open spec fn deep_view(&self) -> ToolCallDtoView {
        self@
    }
}

/// One pending fact suggestion.
#[derive(Debug)]
pub struct SuggestedFactDto {
    pub suggestion_event_id: i64,
    pub fact_id: String,
    pub summary: String,
    pub severity: String,
    pub tags: Vec<String>,
    pub rationale: String,
    pub timestamp: String,
}

/// Mathematical value of a suggestion row.
pub struct SuggestedFactDtoView {
    pub suggestion_event_id: i64,
    pub fact_id: Seq<char>,
    pub summary: Seq<char>,
    pub severity: Seq<char>,
    pub tags: Seq<Seq<char>>,
    pub rationale: Seq<char>,
    pub timestamp: Seq<char>,
}

impl View for SuggestedFactDto {
    type V = SuggestedFactDtoView;

    open spec fn view(&self) -> SuggestedFactDtoView {
        SuggestedFactDtoView {
            suggestion_event_id: self.suggestion_event_id,
            fact_id: self.fact_id@,
            summary: self.summary@,
            severity: self.severity@,
            tags: self.tags.deep_view(),
            rationale: self.rationale@,
            timestamp: self.timestamp@,
        }
    }
}

impl DeepView for SuggestedFactDto {
    type V = SuggestedFactDtoView;

    open spec fn deep_view(&self) -> SuggestedFactDtoView {
        self@
    }
}

impl Clone for SuggestedFactDto {
    /// Copy with the same mathematical value.
    fn clone(&self) -> (res: Self)
        ensures
            res@ == self@,
    {
        let res = SuggestedFactDto {
            suggestion_event_id: self.suggestion_event_id,
            fact_id: self.fact_id.clone(),
            summary: self.summary.clone(),
            severity: self.severity.clone(),
            tags: self.tags.clone(),
            rationale: self.rationale.clone(),
            timestamp: self.timestamp.clone(),
        };
        proof {
            assert(res.tags.deep_view() =~= self.tags.deep_view());
        }
        res
    }
}

// ── Beliefs ────────────────────────────────────────────────────────────────

/// One materialized fact with the key and timestamp it was asserted under.
#[derive(Debug)]
pub struct BeliefEntry {
    pub fact_id: String,
    pub fact: Fact,
    pub timestamp: String,
}

/// Mathematical value of a materialized fact.
pub struct BeliefView {
    pub fact_id: Seq<char>,
    pub fact: FactView,
    pub timestamp: Seq<char>,
}

impl View for BeliefEntry {
    type V = BeliefView;

    open spec fn view(&self) -> BeliefView {
        BeliefView { fact_id: self.fact_id@, fact: self.fact@, timestamp: self.timestamp@ }
    }
}

impl DeepView for BeliefEntry {
    type V = BeliefView;

    open spec fn deep_view(&self) -> BeliefView {
        self@
    }
}

impl Clone for BeliefEntry {
    /// Copy with the same mathematical value.
    fn clone(&self) -> (res: Self)
        ensures
            res@ == self@,
    {
        BeliefEntry {
            fact_id: self.fact_id.clone(),
            fact: self.fact.clone(),
            timestamp: self.timestamp.clone(),
        }
    }
}

/// The key a fact is materialized under: the alert's fact id.
pub open spec fn spec_fact_key(f: FactView) -> Seq<char> {
    match f {
        FactView::Alert(a) => a.id,
    }
}

/// Position of the entry with the given key, or -1.
pub open spec fn spec_key_index(acc: Seq<BeliefView>, key: Seq<char>) -> int
    decreases acc.len(),
{
    if acc.len() == 0 {
        -1
    } else if acc[0].fact_id == key {
        0
    } else {
        let r = spec_key_index(acc.drop_first(), key);
        if r == -1 {
            -1
        } else {
            r + 1
        }
    }
}

/// What [`spec_key_index`] returns: the first position holding the key, or
/// -1 when no entry holds it.
pub proof fn lemma_key_index(acc: Seq<BeliefView>, key: Seq<char>)
    ensures
        -1 <= spec_key_index(acc, key) < acc.len(),
        spec_key_index(acc, key) >= 0 ==> acc[spec_key_index(acc, key)].fact_id == key,
        spec_key_index(acc, key) == -1
            ==> forall|j: int| 0 <= j < acc.len() ==> (#[trigger] acc[j]).fact_id != key,
        forall|j: int| 0 <= j < spec_key_index(acc, key) ==> (#[trigger] acc[j]).fact_id != key,
    decreases acc.len(),
{
    if acc.len() > 0 && acc[0].fact_id != key {
        lemma_key_index(acc.drop_first(), key);
        let dl = acc.drop_first();
        let r = spec_key_index(acc, key);
        if spec_key_index(dl, key) == -1 {
            assert forall|j: int| 0 <= j < acc.len() implies (#[trigger] acc[j]).fact_id != key by {
                if j >= 1 {
                    assert(dl[j - 1] == acc[j]);
                }
            }
        } else {
            assert(acc[r] == dl[r - 1]);
            assert forall|j: int| 0 <= j < r implies (#[trigger] acc[j]).fact_id != key by {
                if j >= 1 {
                    assert(dl[j - 1] == acc[j]);
                }
            }
        }
    }
}

/// Insert or replace the entry under `key`: the new entry goes to the end
/// either way, so the belief set is ordered by most recent assertion, the
/// most recent last.
pub open spec fn spec_upsert(acc: Seq<BeliefView>, entry: BeliefView) -> Seq<BeliefView> {
    let r = spec_key_index(acc, entry.fact_id);
    if r == -1 {
        acc.push(entry)
    } else {
        acc.remove(r).push(entry)
    }
}

/// Remove the entry under `key`, if any.
pub open spec fn spec_remove_key(acc: Seq<BeliefView>, key: Seq<char>) -> Seq<BeliefView> {
    let r = spec_key_index(acc, key);
    if r == -1 {
        acc
    } else {
        acc.remove(r)
    }
}

/// How one event changes the belief set: a well-formed `FactAsserted`
/// inserts or replaces by fact id, a `FactRetracted` removes by fact id,
/// everything else changes nothing.
pub open spec fn spec_beliefs_step(acc: Seq<BeliefView>, e: EventView) -> Seq<BeliefView> {
    if e.event_type == EventType::FactAsserted {
        match e.details {
            Some(d) => match spec_fact_of_json(d) {
                Some(f) => spec_upsert(
                    acc,
                    BeliefView { fact_id: spec_fact_key(f), fact: f, timestamp: e.timestamp },
                ),
                None => acc,
            },
            None => acc,
        }
    } else if e.event_type == EventType::FactRetracted {
        match e.details {
            Some(d) => match spec_get_str(d, "fact_id"@) {
                Some(k) => spec_remove_key(acc, k),
                None => acc,
            },
            None => acc,
        }
    } else {
        acc
    }
}

/// The belief set an event sequence replays to.
pub open spec fn spec_beliefs(events: Seq<EventView>) -> Seq<BeliefView>
    decreases events.len(),
{
    if events.len() == 0 {
        Seq::empty()
    } else {
        spec_beliefs_step(spec_beliefs(events.drop_last()), events.last())
    }
}

/// Only `FactAsserted` and `FactRetracted` events shape the belief set.
pub open spec fn spec_is_belief_event(e: EventView) -> bool {
    e.event_type == EventType::FactAsserted || e.event_type == EventType::FactRetracted
}

/// Replaying only the `FactAsserted` and `FactRetracted` events of a
/// sequence yields the same belief set as replaying the whole sequence.
pub proof fn lemma_beliefs_only_fact_events(events: Seq<EventView>)
    ensures
        spec_beliefs(events.filter(|e: EventView| spec_is_belief_event(e))) == spec_beliefs(events),
    decreases events.len(),
{
    reveal(Seq::filter);
    let pred = |e: EventView| spec_is_belief_event(e);
    if events.len() > 0 {
        lemma_beliefs_only_fact_events(events.drop_last());
        if pred(events.last()) {
            assert(events.filter(pred) == events.drop_last().filter(pred).push(events.last()));
            assert(events.filter(pred).drop_last() =~= events.drop_last().filter(pred));
            assert(events.filter(pred).len() > 0);
        } else {
            assert(events.filter(pred) == events.drop_last().filter(pred));
            assert(spec_beliefs_step(spec_beliefs(events.drop_last()), events.last())
                == spec_beliefs(events.drop_last()));
        }
    }
}

fn belief_index(acc: &Vec<BeliefEntry>, key: &str) -> (r: Option<usize>)
    ensures
        match r {
            Some(i) => spec_key_index(acc.deep_view(), key@) == i,
            None => spec_key_index(acc.deep_view(), key@) == -1,
        },
{
    proof {
        lemma_key_index(acc.deep_view(), key@);
    }
    let mut i: usize = 0;
    while i < acc.len()
        invariant
            i <= acc@.len(),
            acc.deep_view().len() == acc@.len(),
            forall|j: int| 0 <= j < i ==> (#[trigger] acc.deep_view()[j]).fact_id != key@,
        decreases acc@.len() - i,
    {
        if str_eq(acc[i].fact_id.as_str(), key) {
            proof {
                assert(acc.deep_view()[i as int].fact_id == key@);
                if spec_key_index(acc.deep_view(), key@) != i {
                    lemma_key_index(acc.deep_view(), key@);
                }
            }
            return Some(i);
        }
        i += 1;
    }
    None
}

/// Replay the belief set of an event sequence: insert or replace facts by
/// id on `FactAsserted`, remove them on `FactRetracted`.
pub fn materialize_fact_map(events: &Vec<Event>) -> (r: Vec<BeliefEntry>)
    ensures
        r.deep_view() == spec_beliefs(events.deep_view()),
{
    let mut acc: Vec<BeliefEntry> = Vec::new();
    let mut i: usize = 0;
    proof {
        assert(acc.deep_view() =~= spec_beliefs(events.deep_view().take(0)));
    }
    while i < events.len()
        invariant
            i <= events@.len(),
            events.deep_view().len() == events@.len(),
            acc.deep_view() == spec_beliefs(events.deep_view().take(i as int)),
        decreases events@.len() - i,
    {
        let ghost next_prefix = events.deep_view().take(i + 1 as int);
        proof {
            assert(next_prefix.drop_last() =~= events.deep_view().take(i as int));
            assert(next_prefix.last() == events.deep_view()[i as int]);
        }
        let e = &events[i];
        let ghost prev = acc.deep_view();
        let is_asserted = e.event_type == EventType::FactAsserted;
        let is_retracted = e.event_type == EventType::FactRetracted;
        if is_asserted {
            match &e.details {
                Some(d) => match fact_from_json(d) {
                    Some(f) => {
                        let key: String = match &f {
                            Fact::Alert(a) => a.id.clone(),
                        };
                        let entry = BeliefEntry {
                            fact_id: key,
                            fact: f,
                            timestamp: e.timestamp.clone(),
                        };
                        match belief_index(&acc, entry.fact_id.as_str()) {
                            Some(j) => {
                                proof {
                                    lemma_key_index(prev, entry@.fact_id);
                                }
                                let _ = acc.remove(j);
                                acc.push(entry);
                                proof {
                                    assert(acc.deep_view() =~= prev.remove(j as int).push(entry@));
                                }
                            },
                            None => {
                                acc.push(entry);
                                proof {
                                    assert(acc.deep_view() =~= prev.push(entry@));
                                }
                            },
                        }
                    },
                    None => {},
                },
                None => {},
            }
        } else if is_retracted {
            match &e.details {
                Some(d) => match d.get_str("fact_id") {
                    Some(k) => {
                        match belief_index(&acc, k.as_str()) {
                            Some(j) => {
                                proof {
                                    lemma_key_index(prev, k@);
                                }
                                let _ = acc.remove(j);
                                proof {
                                    assert(acc.deep_view() =~= prev.remove(j as int));
                                }
                            },
                            None => {},
                        }
                    },
                    None => {},
                },
                None => {},
            }
        }
        i += 1;
    }
    proof {
        assert(events.deep_view().take(events.deep_view().len() as int) =~= events.deep_view());
    }
    acc
}

/// The belief row a materialized fact projects to.
pub open spec fn spec_belief_dto(b: BeliefView) -> FactDtoView {
    match b.fact {
        FactView::Alert(a) => FactDtoView {
            fact_id: a.id,
            fact_type: "Alert"@,
            summary: a.title,
            severity: spec_severity_name(a.severity),
            tags: a.tags,
            timestamp: b.timestamp,
        },
    }
}

/// The belief projection of an incident: its materialized facts, retracted
/// ones excluded, as rows.
pub fn get_beliefs(log: &EventLog, incident_id: String) -> (r: Result<Vec<FactDto>, String>)
    requires
        log.wf(),
    ensures
        match r {
            Ok(v) => v.deep_view() == spec_beliefs(
                spec_events_for_incident(log@, incident_id@),
            ).map_values(|b: BeliefView| spec_belief_dto(b)),
            Err(_) => false,
        },
{
    let events = match log.events_for_incident(incident_id.as_str()) {
        Ok(evs) => evs,
        Err(e) => {
            return Err(e);
        },
    };
    let beliefs = materialize_fact_map(&events);
    let mut out: Vec<FactDto> = Vec::new();
    let mut i: usize = 0;
    while i < beliefs.len()
        invariant
            i <= beliefs@.len(),
            beliefs.deep_view().len() == beliefs@.len(),
            out.deep_view().len() == i,
            forall|j: int| 0 <= j < i
                ==> out.deep_view()[j] == spec_belief_dto(#[trigger] beliefs.deep_view()[j]),
        decreases beliefs@.len() - i,
    {
        let b = &beliefs[i];
        let ghost prev = out.deep_view();
        match &b.fact {
            Fact::Alert(a) => {
                out.push(FactDto {
                    fact_id: a.id.clone(),
                    fact_type: String::from_str("Alert"),
                    summary: a.title.clone(),
                    severity: severity_to_string(a.severity),
                    tags: a.tags.clone(),
                    timestamp: b.timestamp.clone(),
                });
                proof {
                    assert(out.deep_view()
                        =~= prev.push(spec_belief_dto(beliefs.deep_view()[i as int])));
                }
            },
        }
        i += 1;
    }
    proof {
        assert(out.deep_view() =~= beliefs.deep_view().map_values(|b: BeliefView| spec_belief_dto(b)));
    }
    Ok(out)
}

// ── Timeline ───────────────────────────────────────────────────────────────

/// The timeline row an event projects to.
pub open spec fn spec_timeline_row(e: EventView) -> TimelineEventDtoView {
    TimelineEventDtoView {
        id: match e.id {
            Some(i) => i,
            None => 0,
        },
        event_type: spec_event_type_name(e.event_type),
        description: e.description,
        timestamp: e.timestamp,
    }
}

/// The timeline of an incident: every one of its events as a row, in log
/// order.
pub fn get_timeline(log: &EventLog, incident_id: String) -> (r: Result<Vec<TimelineEventDto>, String>)
    requires
        log.wf(),
    ensures
        match r {
            Ok(v) => v.deep_view() == spec_events_for_incident(log@, incident_id@)
                .map_values(|e: EventView| spec_timeline_row(e)),
            Err(_) => false,
        },
{
    let events = match log.events_for_incident(incident_id.as_str()) {
        Ok(evs) => evs,
        Err(e) => {
            return Err(e);
        },
    };
    let mut out: Vec<TimelineEventDto> = Vec::new();
    let mut i: usize = 0;
    while i < events.len()
        invariant
            i <= events@.len(),
            events.deep_view().len() == events@.len(),
            out.deep_view().len() == i,
            forall|j: int| 0 <= j < i
                ==> out.deep_view()[j] == spec_timeline_row(#[trigger] events.deep_view()[j]),
        decreases events@.len() - i,
    {
        let e = &events[i];
        let ghost prev = out.deep_view();
        let id = match e.id {
            Some(x) => x,
            None => 0,
        };
        out.push(TimelineEventDto {
            id,
            event_type: event_type_name(e.event_type),
            description: e.description.clone(),
            timestamp: e.timestamp.clone(),
        });
        proof {
            assert(out.deep_view() =~= prev.push(spec_timeline_row(events.deep_view()[i as int])));
        }
        i += 1;
    }
    proof {
        assert(out.deep_view()
            =~= events.deep_view().map_values(|e: EventView| spec_timeline_row(e)));
    }
    Ok(out)
}

// ── Current plan ───────────────────────────────────────────────────────────

/// Position of the plan step with the given name, or -1.
pub open spec fn spec_plan_index(acc: Seq<PlanStepView>, name: Seq<char>) -> int
    decreases acc.len(),
{
    if acc.len() == 0 {
        -1
    } else if acc[0].name == name {
        0
    } else {
        let r = spec_plan_index(acc.drop_first(), name);
        if r == -1 {
            -1
        } else {
            r + 1
        }
    }
}

/// What [`spec_plan_index`] returns: the first position holding the name,
/// or -1 when no step holds it.
pub proof fn lemma_plan_index(acc: Seq<PlanStepView>, name: Seq<char>)
    ensures
        -1 <= spec_plan_index(acc, name) < acc.len(),
        spec_plan_index(acc, name) >= 0 ==> acc[spec_plan_index(acc, name)].name == name,
        spec_plan_index(acc, name) == -1
            ==> forall|j: int| 0 <= j < acc.len() ==> (#[trigger] acc[j]).name != name,
        forall|j: int| 0 <= j < spec_plan_index(acc, name) ==> (#[trigger] acc[j]).name != name,
    decreases acc.len(),
{
    if acc.len() > 0 && acc[0].name != name {
        lemma_plan_index(acc.drop_first(), name);
        let dl = acc.drop_first();
        let r = spec_plan_index(acc, name);
        if spec_plan_index(dl, name) == -1 {
            assert forall|j: int| 0 <= j < acc.len() implies (#[trigger] acc[j]).name != name by {
                if j >= 1 {
                    assert(dl[j - 1] == acc[j]);
                }
            }
        } else {
            assert(acc[r] == dl[r - 1]);
            assert forall|j: int| 0 <= j < r implies (#[trigger] acc[j]).name != name by {
                if j >= 1 {
                    assert(dl[j - 1] == acc[j]);
                }
            }
        }
    }
}

/// An event that shapes the plan: an intent, a result, or an escalation.
pub open spec fn spec_is_plan_event(e: EventView) -> bool {
    e.event_type == EventType::ActionIntent || e.event_type == EventType::ActionResult
        || e.event_type == EventType::Escalated
}

/// How one event changes the plan steps: the named step's status and effect
/// are the last recorded ones; a new name appends a step.
pub open spec fn spec_plan_step(acc: Seq<PlanStepView>, e: EventView) -> Seq<PlanStepView> {
    if spec_is_plan_event(e) {
        match e.details {
            Some(d) => match spec_get_str(d, "name"@) {
                Some(name) => {
                    let step = PlanStepView {
                        name: name,
                        effect: spec_field_or(d, "effect"@, "Observe"@),
                        status: spec_field_or(d, "status"@, "pending"@),
                    };
                    let r = spec_plan_index(acc, name);
                    if r == -1 {
                        acc.push(step)
                    } else {
                        acc.update(r, step)
                    }
                },
                None => acc,
            },
            None => acc,
        }
    } else {
        acc
    }
}

/// The plan steps an event sequence replays to.
pub open spec fn spec_plan_steps(events: Seq<EventView>) -> Seq<PlanStepView>
    decreases events.len(),
{
    if events.len() == 0 {
        Seq::empty()
    } else {
        spec_plan_step(spec_plan_steps(events.drop_last()), events.last())
    }
}

/// Position of the first step still running, or -1.
pub open spec fn spec_running_index(steps: Seq<PlanStepView>) -> int
    decreases steps.len(),
{
    if steps.len() == 0 {
        -1
    } else if steps[0].status == "running"@ {
        0
    } else {
        let r = spec_running_index(steps.drop_first());
        if r == -1 {
            -1
        } else {
            r + 1
        }
    }
}

/// What [`spec_running_index`] returns: the first running step, or -1.
pub proof fn lemma_running_index(steps: Seq<PlanStepView>)
    ensures
        -1 <= spec_running_index(steps) < steps.len(),
        spec_running_index(steps) >= 0 ==> steps[spec_running_index(steps)].status == "running"@,
        spec_running_index(steps) == -1
            ==> forall|j: int| 0 <= j < steps.len() ==> (#[trigger] steps[j]).status != "running"@,
        forall|j: int| 0 <= j < spec_running_index(steps) ==> (#[trigger] steps[j]).status != "running"@,
    decreases steps.len(),
{
    if steps.len() > 0 && steps[0].status != "running"@ {
        lemma_running_index(steps.drop_first());
        let dl = steps.drop_first();
        let r = spec_running_index(steps);
        if spec_running_index(dl) == -1 {
            assert forall|j: int| 0 <= j < steps.len() implies (#[trigger] steps[j]).status != "running"@ by {
                if j >= 1 {
                    assert(dl[j - 1] == steps[j]);
                }
            }
        } else {
            assert(steps[r] == dl[r - 1]);
            assert forall|j: int| 0 <= j < r implies (#[trigger] steps[j]).status != "running"@ by {
                if j >= 1 {
                    assert(dl[j - 1] == steps[j]);
                }
            }
        }
    }
}

/// The step in progress: the first running step, else the last step, else 0
/// on an empty plan.
pub open spec fn spec_current_step(steps: Seq<PlanStepView>) -> int {
    let r = spec_running_index(steps);
    if r >= 0 {
        r
    } else if steps.len() > 0 {
        steps.len() - 1
    } else {
        0
    }
}

/// The current plan of an incident: one step per action name seen in
/// intent, result and escalation events, its status and effect
/// last-writer-wins, and the index of the step in progress.
pub fn get_current_plan(log: &EventLog, incident_id: String) -> (r: Result<PlanDto, String>)
    requires
        log.wf(),
    ensures
        match r {
            Ok(p) => {
                &&& p.steps.deep_view() == spec_plan_steps(
                    spec_events_for_incident(log@, incident_id@),
                )
                &&& p.current_step == spec_current_step(
                    spec_plan_steps(spec_events_for_incident(log@, incident_id@)),
                )
            },
            Err(_) => false,
        },
{
    let events = match log.events_for_incident(incident_id.as_str()) {
        Ok(evs) => evs,
        Err(e) => {
            return Err(e);
        },
    };
    let mut steps: Vec<PlanStepDto> = Vec::new();
    let mut i: usize = 0;
    proof {
        assert(steps.deep_view() =~= spec_plan_steps(events.deep_view().take(0)));
    }
    while i < events.len()
        invariant
            i <= events@.len(),
            events.deep_view().len() == events@.len(),
            steps.deep_view() == spec_plan_steps(events.deep_view().take(i as int)),
        decreases events@.len() - i,
    {
        let ghost next_prefix = events.deep_view().take(i + 1 as int);
        proof {
            assert(next_prefix.drop_last() =~= events.deep_view().take(i as int));
            assert(next_prefix.last() == events.deep_view()[i as int]);
        }
        let e = &events[i];
        let ghost prev = steps.deep_view();
        let relevant = e.event_type == EventType::ActionIntent
            || e.event_type == EventType::ActionResult
            || e.event_type == EventType::Escalated;
        if relevant {
            match &e.details {
                Some(d) => match d.get_str("name") {
                    Some(name) => {
                        let step = PlanStepDto {
                            name: name.clone(),
                            effect: field_or(d, "effect", "Observe"),
                            status: field_or(d, "status", "pending"),
                        };
                        match plan_index(&steps, name.as_str()) {
                            Some(j) => {
                                proof {
                                    lemma_plan_index(prev, name@);
                                }
                                steps.set(j, step);
                                proof {
                                    assert(steps.deep_view() =~= prev.update(j as int, step@));
                                }
                            },
                            None => {
                                steps.push(step);
                                proof {
                                    assert(steps.deep_view() =~= prev.push(step@));
                                }
                            },
                        }
                    },
                    None => {},
                },
                None => {},
            }
        }
        i += 1;
    }
    proof {
        assert(events.deep_view().take(events.deep_view().len() as int) =~= events.deep_view());
    }
    let ghost all_steps = steps.deep_view();
    proof {
        lemma_running_index(all_steps);
    }
    let mut current: usize = 0;
    let mut found = false;
    let mut i: usize = 0;
    while i < steps.len()
        invariant
            i <= steps@.len(),
            all_steps == steps.deep_view(),
            all_steps.len() == steps@.len(),
            !found ==> forall|j: int| 0 <= j < i ==> (#[trigger] all_steps[j]).status != "running"@,
            found ==> spec_running_index(all_steps) == current,
            found ==> current < i,
        decreases steps@.len() - i,
    {
        if !found {
            if str_eq(steps[i].status.as_str(), "running") {
                proof {
                    assert(all_steps[i as int].status == "running"@);
                    lemma_running_index(all_steps);
                }
                current = i;
                found = true;
            }
        }
        i += 1;
    }
    if !found {
        proof {
            lemma_running_index(all_steps);
        }
        if steps.len() > 0 {
            current = steps.len() - 1;
        } else {
            current = 0;
        }
    }
    Ok(PlanDto { steps, current_step: current })
}

fn plan_index(acc: &Vec<PlanStepDto>, name: &str) -> (r: Option<usize>)
    ensures
        match r {
            Some(i) => spec_plan_index(acc.deep_view(), name@) == i,
            None => spec_plan_index(acc.deep_view(), name@) == -1,
        },
{
    proof {
        lemma_plan_index(acc.deep_view(), name@);
    }
    let mut i: usize = 0;
    while i < acc.len()
        invariant
            i <= acc@.len(),
            acc.deep_view().len() == acc@.len(),
            forall|j: int| 0 <= j < i ==> (#[trigger] acc.deep_view()[j]).name != name@,
        decreases acc@.len() - i,
    {
        if str_eq(acc[i].name.as_str(), name) {
            proof {
                assert(acc.deep_view()[i as int].name == name@);
                lemma_plan_index(acc.deep_view(), name@);
            }
            return Some(i);
        }
        i += 1;
    }
    None
}

// ── Tool calls ─────────────────────────────────────────────────────────────

/// The tool-call row an intent or result event projects to.
pub open spec fn spec_tool_call_row(e: EventView, d: JsonVal) -> ToolCallDtoView {
    ToolCallDtoView {
        event_id: match e.id {
            Some(i) => i,
            None => 0,
        },
        incident_id: e.incident_id,
        tool_name: spec_field_or(d, "name"@, "unknown"@),
        phase: if e.event_type == EventType::ActionIntent {
            "intent"@
        } else {
            "result"@
        },
        status: spec_field_or(d, "status"@, "pending"@),
        effect: spec_field_or(d, "effect"@, "Observe"@),
        summary: e.description,
        timestamp: e.timestamp,
    }
}

/// How one event extends the tool-call rows.
pub open spec fn spec_tool_calls_step(acc: Seq<ToolCallDtoView>, e: EventView) -> Seq<ToolCallDtoView> {
    if e.event_type == EventType::ActionIntent || e.event_type == EventType::ActionResult {
        match e.details {
            Some(d) => acc.push(spec_tool_call_row(e, d)),
            None => acc,
        }
    } else {
        acc
    }
}

/// The tool-call rows an event sequence replays to.
pub open spec fn spec_tool_calls(events: Seq<EventView>) -> Seq<ToolCallDtoView>
    decreases events.len(),
{
    if events.len() == 0 {
        Seq::empty()
    } else {
        spec_tool_calls_step(spec_tool_calls(events.drop_last()), events.last())
    }
}

/// The tool usage of an incident: one row per intent and one per result, in
/// log order.
pub fn get_tool_calls(log: &EventLog, incident_id: String) -> (r: Result<Vec<ToolCallDto>, String>)
    requires
        log.wf(),
    ensures
        match r {
            Ok(v) => v.deep_view() == spec_tool_calls(spec_events_for_incident(log@, incident_id@)),
            Err(_) => false,
        },
{
    let events = match log.events_for_incident(incident_id.as_str()) {
        Ok(evs) => evs,
        Err(e) => {
            return Err(e);
        },
    };
    let mut out: Vec<ToolCallDto> = Vec::new();
    let mut i: usize = 0;
    proof {
        assert(out.deep_view() =~= spec_tool_calls(events.deep_view().take(0)));
    }
    while i < events.len()
        invariant
            i <= events@.len(),
            events.deep_view().len() == events@.len(),
            out.deep_view() == spec_tool_calls(events.deep_view().take(i as int)),
        decreases events@.len() - i,
    {
        let ghost next_prefix = events.deep_view().take(i + 1 as int);
        proof {
            assert(next_prefix.drop_last() =~= events.deep_view().take(i as int));
            assert(next_prefix.last() == events.deep_view()[i as int]);
        }
        let e = &events[i];
        let ghost prev = out.deep_view();
        let is_intent = e.event_type == EventType::ActionIntent;
        let is_result = e.event_type == EventType::ActionResult;
        if is_intent || is_result {
            match &e.details {
                Some(d) => {
                    let id = match e.id {
                        Some(x) => x,
                        None => 0,
                    };
                    let row = ToolCallDto {
                        event_id: id,
                        incident_id: e.incident_id.clone(),
                        tool_name: field_or(d, "name", "unknown"),
                        phase: if is_intent {
                            String::from_str("intent")
                        } else {
                            String::from_str("result")
                        },
                        status: field_or(d, "status", "pending"),
                        effect: field_or(d, "effect", "Observe"),
                        summary: e.description.clone(),
                        timestamp: e.timestamp.clone(),
                    };
                    out.push(row);
                    proof {
                        assert(out.deep_view() =~= prev.push(
                            spec_tool_call_row(
                                events.deep_view()[i as int],
                                events.deep_view()[i as int].details->0,
                            ),
                        ));
                    }
                },
                None => {},
            }
        }
        i += 1;
    }
    proof {
        assert(events.deep_view().take(events.deep_view().len() as int) =~= events.deep_view());
    }
    Ok(out)
}

// ── Suggested facts ────────────────────────────────────────────────────────

/// The pending-suggestion row a `FactSuggested` event creates.
pub open spec fn spec_suggestion_row(id: i64, d: JsonVal, ts: Seq<char>) -> SuggestedFactDtoView {
    SuggestedFactDtoView {
        suggestion_event_id: id,
        fact_id: spec_field_or(d, "fact_id"@, "suggested"@),
        summary: spec_field_or(d, "title"@, "Suggested fact"@),
        severity: spec_field_or(d, "severity"@, "high"@),
        tags: spec_str_list(d, "tags"@),
        rationale: spec_field_or(d, "rationale"@, "llm suggestion"@),
        timestamp: ts,
    }
}

/// How one event changes the pending suggestions: a `FactSuggested` event
/// adds its row; a `FactSuggestionResolved` event removes the row whose id
/// its `suggestion_event_id` names.
pub open spec fn spec_suggestions_step(
    acc: Seq<SuggestedFactDtoView>,
    e: EventView,
) -> Seq<SuggestedFactDtoView> {
    if e.event_type == EventType::FactSuggested {
        match (e.id, e.details) {
            (Some(id), Some(d)) => acc.push(spec_suggestion_row(id, d, e.timestamp)),
            _ => acc,
        }
    } else if e.event_type == EventType::FactSuggestionResolved {
        match e.details {
            Some(d) => match spec_get_i64(d, "suggestion_event_id"@) {
                Some(k) => acc.filter(|s: SuggestedFactDtoView| s.suggestion_event_id != k),
                None => acc,
            },
            None => acc,
        }
    } else {
        acc
    }
}

/// The pending suggestions an event sequence replays to.
pub open spec fn spec_suggestions(events: Seq<EventView>) -> Seq<SuggestedFactDtoView>
    decreases events.len(),
{
    if events.len() == 0 {
        Seq::empty()
    } else {
        spec_suggestions_step(spec_suggestions(events.drop_last()), events.last())
    }
}

/// Resolving suggestion `k` removes exactly the rows carrying `k` from the
/// active set, whatever decision the resolution records.
pub proof fn lemma_suggestion_resolved_removes(events: Seq<EventView>, e: EventView, k: i64)
    requires
        e.event_type == EventType::FactSuggestionResolved,
        e.details matches Some(d) && spec_get_i64(d, "suggestion_event_id"@) == Some(k),
    ensures
        forall|i: int| 0 <= i < spec_suggestions(events.push(e)).len()
            ==> (#[trigger] spec_suggestions(events.push(e))[i]).suggestion_event_id != k,
        spec_suggestions(events.push(e))
            == spec_suggestions(events).filter(|s: SuggestedFactDtoView| s.suggestion_event_id != k),
{
    assert(events.push(e).drop_last() =~= events);
    assert(events.push(e).last() == e);
    let filtered = spec_suggestions(events).filter(
        |s: SuggestedFactDtoView| s.suggestion_event_id != k,
    );
    spec_suggestions(events).filter_lemma(|s: SuggestedFactDtoView| s.suggestion_event_id != k);
}

/// The pending fact suggestions of an incident: each `FactSuggested` event
/// not yet referenced by a later `FactSuggestionResolved`, in log order.
pub fn get_suggested_facts(log: &EventLog, incident_id: String) -> (r: Result<
    Vec<SuggestedFactDto>,
    String,
>)
    requires
        log.wf(),
    ensures
        match r {
            Ok(v) => v.deep_view() == spec_suggestions(spec_events_for_incident(log@, incident_id@)),
            Err(_) => false,
        },
{
    let events = match log.events_for_incident(incident_id.as_str()) {
        Ok(evs) => evs,
        Err(e) => {
            return Err(e);
        },
    };
    let mut out: Vec<SuggestedFactDto> = Vec::new();
    let mut i: usize = 0;
    proof {
        assert(out.deep_view() =~= spec_suggestions(events.deep_view().take(0)));
    }
    while i < events.len()
        invariant
            i <= events@.len(),
            events.deep_view().len() == events@.len(),
            out.deep_view() == spec_suggestions(events.deep_view().take(i as int)),
        decreases events@.len() - i,
    {
        let ghost next_prefix = events.deep_view().take(i + 1 as int);
        proof {
            assert(next_prefix.drop_last() =~= events.deep_view().take(i as int));
            assert(next_prefix.last() == events.deep_view()[i as int]);
        }
        let e = &events[i];
        let ghost prev = out.deep_view();
        let is_suggested = e.event_type == EventType::FactSuggested;
        let is_resolution = e.event_type == EventType::FactSuggestionResolved;
        if is_suggested {
            match (&e.id, &e.details) {
                (Some(id), Some(d)) => {
                    out.push(SuggestedFactDto {
                        suggestion_event_id: *id,
                        fact_id: field_or(d, "fact_id", "suggested"),
                        summary: field_or(d, "title", "Suggested fact"),
                        severity: field_or(d, "severity", "high"),
                        tags: str_list(d, "tags"),
                        rationale: field_or(d, "rationale", "llm suggestion"),
                        timestamp: e.timestamp.clone(),
                    });
                    proof {
                        assert(out.deep_view() =~= prev.push(
                            spec_suggestion_row(
                                events.deep_view()[i as int].id->0,
                                events.deep_view()[i as int].details->0,
                                events.deep_view()[i as int].timestamp,
                            ),
                        ));
                    }
                },
                _ => {},
            }
        } else if is_resolution {
            match &e.details {
                Some(d) => match d.get_i64("suggestion_event_id") {
                    Some(k) => {
                        let ghost pred = |s: SuggestedFactDtoView| s.suggestion_event_id != k;
                        let mut kept: Vec<SuggestedFactDto> = Vec::new();
                        let mut j: usize = 0;
                        proof {
                            reveal(Seq::filter);
                            assert(kept.deep_view() =~= prev.take(0).filter(pred));
                        }
                        while j < out.len()
                            invariant
                                j <= out@.len(),
                                prev == out.deep_view(),
                                prev.len() == out@.len(),
                                kept.deep_view() == prev.take(j as int).filter(pred),
                                pred == (|s: SuggestedFactDtoView| s.suggestion_event_id != k),
                            decreases out@.len() - j,
                        {
                            let ghost inner_next = prev.take(j + 1 as int);
                            proof {
                                reveal(Seq::filter);
                                assert(inner_next.drop_last() =~= prev.take(j as int));
                                assert(inner_next.last() == prev[j as int]);
                            }
                            let ghost kept_prev = kept.deep_view();
                            if out[j].suggestion_event_id != k {
                                kept.push(out[j].clone());
                                proof {
                                    assert(out[j as int]@ == prev[j as int]);
                                    assert(kept.deep_view() =~= kept_prev.push(prev[j as int]));
                                }
                            }
                            j += 1;
                        }
                        proof {
                            assert(prev.take(prev.len() as int) =~= prev);
                        }
                        out = kept;
                    },
                    None => {},
                },
                None => {},
            }
        }
        i += 1;
    }
    proof {
        assert(events.deep_view().take(events.deep_view().len() as int) =~= events.deep_view());
    }
    Ok(out)
}

// ── Incident summary ───────────────────────────────────────────────────────

/// The summary before any event: active, high severity, no title, phase
/// `observing`.
pub open spec fn spec_summary_init(incident_id: Seq<char>) -> IncidentDtoView {
    IncidentDtoView {
        id: incident_id,
        status: "active"@,
        severity: "high"@,
        title: ""@,
        started_at: ""@,
        current_phase: "observing"@,
    }
}

/// How one event advances the summary: the first timestamp becomes the
/// start, `Resolved` and `Escalated` set the status, each event type sets
/// the phase, and the latest well-formed asserted fact sets title and
/// severity.
pub open spec fn spec_summary_step(acc: IncidentDtoView, e: EventView) -> IncidentDtoView {
    let started = if acc.started_at == ""@ {
        e.timestamp
    } else {
        acc.started_at
    };
    match e.event_type {
        EventType::Resolved => IncidentDtoView {
            started_at: started,
            status: "resolved"@,
            current_phase: "resolved"@,
            ..acc
        },
        EventType::Escalated => IncidentDtoView {
            started_at: started,
            status: "escalated"@,
            current_phase: "escalating"@,
            ..acc
        },
        EventType::EscalationResponded => IncidentDtoView {
            started_at: started,
            current_phase: "human-response"@,
            ..acc
        },
        EventType::FactRetracted => IncidentDtoView {
            started_at: started,
            current_phase: "matching"@,
            ..acc
        },
        EventType::FactSuggested => IncidentDtoView {
            started_at: started,
            current_phase: "matching"@,
            ..acc
        },
        EventType::FactSuggestionResolved => IncidentDtoView {
            started_at: started,
            current_phase: "matching"@,
            ..acc
        },
        EventType::PlanSelected => IncidentDtoView {
            started_at: started,
            current_phase: "planning"@,
            ..acc
        },
        EventType::ActionIntent => IncidentDtoView {
            started_at: started,
            current_phase: "executing"@,
            ..acc
        },
        EventType::ActionResult => IncidentDtoView {
            started_at: started,
            current_phase: "executing"@,
            ..acc
        },
        EventType::FactAsserted => {
            let base = IncidentDtoView { started_at: started, current_phase: "matching"@, ..acc };
            match e.details {
                Some(d) => match spec_fact_of_json(d) {
                    Some(FactView::Alert(a)) => IncidentDtoView {
                        title: a.title,
                        severity: spec_severity_name(a.severity),
                        ..base
                    },
                    None => base,
                },
                None => base,
            }
        },
    }
}

/// The summary an incident's events replay to.
pub open spec fn spec_summarize(events: Seq<EventView>, incident_id: Seq<char>) -> IncidentDtoView
    decreases events.len(),
{
    if events.len() == 0 {
        spec_summary_init(incident_id)
    } else {
        spec_summary_step(spec_summarize(events.drop_last(), incident_id), events.last())
    }
}

/// Summarize one incident from its events.
pub fn summarize_incident(log: &EventLog, incident_id: String) -> (r: Result<IncidentDto, String>)
    requires
        log.wf(),
    ensures
        match r {
            Ok(dto) => dto@ == spec_summarize(
                spec_events_for_incident(log@, incident_id@),
                incident_id@,
            ),
            Err(_) => false,
        },
{
    let events = match log.events_for_incident(incident_id.as_str()) {
        Ok(evs) => evs,
        Err(e) => {
            return Err(e);
        },
    };
    let mut dto = IncidentDto {
        id: incident_id,
        status: String::from_str("active"),
        severity: String::from_str("high"),
        title: String::from_str(""),
        started_at: String::from_str(""),
        current_phase: String::from_str("observing"),
    };
    let mut i: usize = 0;
    proof {
        assert(dto@ == spec_summarize(events.deep_view().take(0), dto.id@));
    }
    let ghost inc = dto.id@;
    while i < events.len()
        invariant
            i <= events@.len(),
            events.deep_view().len() == events@.len(),
            dto.id@ == inc,
            dto@ == spec_summarize(events.deep_view().take(i as int), inc),
        decreases events@.len() - i,
    {
        let ghost next_prefix = events.deep_view().take(i + 1 as int);
        proof {
            assert(next_prefix.drop_last() =~= events.deep_view().take(i as int));
            assert(next_prefix.last() == events.deep_view()[i as int]);
        }
        let e = &events[i];
        if str_eq(dto.started_at.as_str(), "") {
            dto.started_at = e.timestamp.clone();
        }
        match e.event_type {
            EventType::Resolved => {
                dto.status = String::from_str("resolved");
                dto.current_phase = String::from_str("resolved");
            },
            EventType::Escalated => {
                dto.status = String::from_str("escalated");
                dto.current_phase = String::from_str("escalating");
            },
            EventType::EscalationResponded => {
                dto.current_phase = String::from_str("human-response");
            },
            EventType::FactRetracted => {
                dto.current_phase = String::from_str("matching");
            },
            EventType::FactSuggested => {
                dto.current_phase = String::from_str("matching");
            },
            EventType::FactSuggestionResolved => {
                dto.current_phase = String::from_str("matching");
            },
            EventType::PlanSelected => {
                dto.current_phase = String::from_str("planning");
            },
            EventType::ActionIntent => {
                dto.current_phase = String::from_str("executing");
            },
            EventType::ActionResult => {
                dto.current_phase = String::from_str("executing");
            },
            EventType::FactAsserted => {
                dto.current_phase = String::from_str("matching");
                match &e.details {
                    Some(d) => match fact_from_json(d) {
                        Some(Fact::Alert(a)) => {
                            dto.title = a.title;
                            dto.severity = severity_to_string(a.severity);
                        },
                        None => {},
                    },
                    None => {},
                }
            },
        }
        i += 1;
    }
    proof {
        assert(events.deep_view().take(events.deep_view().len() as int) =~= events.deep_view());
    }
    Ok(dto)
}

/// The ids of the incident rows, in row order.
pub open spec fn spec_incident_ids(v: Seq<IncidentDtoView>) -> Seq<Seq<char>> {
    v.map_values(|d: IncidentDtoView| d.id)
}

/// The incident list: one summary per incident, ordered by most recent
/// activity first, as [`EventLog::all_incidents`] orders them.
pub fn list_incidents(log: &EventLog) -> (r: Result<Vec<IncidentDto>, String>)
    requires
        log.wf(),
    ensures
        r is Ok,
        forall|i: int| 0 <= i < r->Ok_0.deep_view().len()
            ==> (#[trigger] r->Ok_0.deep_view()[i]) == spec_summarize(
                spec_events_for_incident(log@, r->Ok_0.deep_view()[i].id),
                r->Ok_0.deep_view()[i].id,
            ),
        forall|i: int| 0 <= i < r->Ok_0.deep_view().len()
            ==> crate::event_log::spec_has_event_for(log@, (#[trigger] r->Ok_0.deep_view()[i]).id),
        forall|inc: Seq<char>| crate::event_log::spec_has_event_for(log@, inc)
            ==> #[trigger] spec_incident_ids(r->Ok_0.deep_view()).contains(inc),
        forall|i: int, j: int| 0 <= i < j < r->Ok_0.deep_view().len()
            ==> (#[trigger] r->Ok_0.deep_view()[i]).id != (#[trigger] r->Ok_0.deep_view()[j]).id,
        forall|i: int, j: int| 0 <= i < j < r->Ok_0.deep_view().len()
            ==> crate::event_log::spec_last_index_of(log@, (#[trigger] r->Ok_0.deep_view()[i]).id)
                > crate::event_log::spec_last_index_of(log@, (#[trigger] r->Ok_0.deep_view()[j]).id),
{
    let ids = match log.all_incidents() {
        Ok(v) => v,
        Err(e) => {
            return Err(e);
        },
    };
    let mut out: Vec<IncidentDto> = Vec::new();
    let mut i: usize = 0;
    while i < ids.len()
        invariant
            log.wf(),
            i <= ids@.len(),
            ids.deep_view().len() == ids@.len(),
            out.deep_view().len() == i,
            forall|j: int| 0 <= j < ids.deep_view().len()
                ==> crate::event_log::spec_has_event_for(log@, #[trigger] ids.deep_view()[j]),
            forall|j: int| 0 <= j < i ==> (#[trigger] out.deep_view()[j]).id == ids.deep_view()[j],
            forall|j: int| 0 <= j < i ==> (#[trigger] out.deep_view()[j]) == spec_summarize(
                spec_events_for_incident(log@, ids.deep_view()[j]),
                ids.deep_view()[j],
            ),
        decreases ids@.len() - i,
    {
        let ghost prev = out.deep_view();
        let dto = match summarize_incident(log, ids[i].clone()) {
            Ok(d) => d,
            Err(e) => {
                return Err(e);
            },
        };
        proof {
            lemma_summary_id(spec_events_for_incident(log@, ids.deep_view()[i as int]), ids.deep_view()[i as int]);
        }
        out.push(dto);
        proof {
            assert(out.deep_view() =~= prev.push(
                spec_summarize(
                    spec_events_for_incident(log@, ids.deep_view()[i as int]),
                    ids.deep_view()[i as int],
                ),
            ));
        }
        i += 1;
    }
    proof {
        assert forall|inc: Seq<char>| crate::event_log::spec_has_event_for(log@, inc)
            implies #[trigger] spec_incident_ids(out.deep_view()).contains(inc) by {
            assert(ids.deep_view().contains(inc));
            let w = choose|w: int| 0 <= w < ids.deep_view().len() && ids.deep_view()[w] == inc;
            assert(spec_incident_ids(out.deep_view())[w] == inc);
        }
    }
    Ok(out)
}

/// The summary's id is the incident id it was computed for.
proof fn lemma_summary_id(events: Seq<EventView>, incident_id: Seq<char>)
    ensures
        spec_summarize(events, incident_id).id == incident_id,
    decreases events.len(),
{
    if events.len() > 0 {
        lemma_summary_id(events.drop_last(), incident_id);
    }
}

} // verus!
