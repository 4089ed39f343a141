//! The BDI cycle around one inbound fact.
//!
//! Per fact the agent asserts a belief, detects a pattern and tries the
//! declared runbooks; failing that it either defers to the LLM planner or
//! escalates at once. A selected plan is executed step by step and the run
//! ends in a `Resolved` event or an escalation. The loop that feeds facts
//! in, and the calls that reach the LLM provider, live outside the library;
//! every decision and every append is verified here.

use vstd::prelude::*;
use crate::event_log::{Event, EventLog, EventType, EventView, spec_with_id};
use crate::executor::execute_plan as execute_plan_for_agent;
use crate::facts::{Fact, FactView, fact_to_json, spec_fact_json, spec_incident_id_of, incident_id_from_fact};
use crate::json::{JsonVal, JsonValue};
use crate::llm::{validate_actions, spec_validate_actions};
use crate::planner::{select_runbook, spec_select_runbook, spec_runbooks_view};
use crate::rules::{detect_pattern, spec_detect_pattern};
use crate::runbooks::{
    ActionSchema, ActionView, Runbook, crashloop_runbook, runbook_json, spec_crashloop_actions,
    spec_runbook_json,
};
use crate::effects::spec_effect_name;
use crate::strutil::string_from_chars;

verus! {

use vstd::string::StringExecFns;

/// What the agent hands the escalation channel when it gives up on a plan.
#[derive(Debug)]
pub struct EscalationRequest {
    pub incident_id: String,
    pub reason: String,
}

/// Mathematical value of an escalation request.
pub struct EscalationRequestView {
    pub incident_id: Seq<char>,
    pub reason: Seq<char>,
}

impl View for EscalationRequest {
    type V = EscalationRequestView;

    open spec fn view(&self) -> EscalationRequestView {
        EscalationRequestView { incident_id: self.incident_id@, reason: self.reason@ }
    }
}

impl Clone for EscalationRequest {
    /// Copy with the same mathematical value.
    fn clone(&self) -> (res: Self)
        ensures
            res@ == self@,
    {
        EscalationRequest {
            incident_id: self.incident_id.clone(),
            reason: self.reason.clone(),
        }
    }
}

/// The agent's immutable configuration: its runbooks, the action whitelist
/// for LLM validation, the goal propositions, and whether an LLM planner is
/// attached. The provider's connection details live with the caller that
/// makes the calls.
pub struct AgentConfig {
    pub max_replan_attempts: usize,
    pub runbooks: Vec<(&'static str, Runbook)>,
    pub all_actions: Vec<ActionSchema>,
    pub goal_props: Vec<String>,
    pub llm_enabled: bool,
}

/// How many facts of context the agent keeps for the LLM.
pub const RECENT_FACT_WINDOW: usize = 16;

/// Slide the recent-fact window: append the fact and drop the oldest one
/// beyond the window size.
pub fn push_recent(recent: &mut Vec<Fact>, fact: Fact)
    ensures
        final(recent).deep_view() == (if old(recent)@.len() < RECENT_FACT_WINDOW {
            old(recent).deep_view().push(fact@)
        } else {
            old(recent).deep_view().push(fact@).drop_first()
        }),
        final(recent)@.len() <= vstd::math::max(old(recent)@.len() as int, RECENT_FACT_WINDOW as int),
{
    let ghost before = recent.deep_view();
    recent.push(fact);
    proof {
        assert(recent.deep_view() =~= before.push(fact@));
    }
    if recent.len() > RECENT_FACT_WINDOW {
        let ghost mid = recent.deep_view();
        let _ = recent.remove(0);
        proof {
            assert(recent.deep_view() =~= mid.drop_first());
        }
    }
}

/// Position of the first action with the given name, or -1.
pub open spec fn spec_action_index(acc: Seq<ActionView>, name: Seq<char>) -> int
    decreases acc.len(),
{
    if acc.len() == 0 {
        -1
    } else if acc[0].name == name {
        0
    } else {
        let r = spec_action_index(acc.drop_first(), name);
        if r == -1 {
            -1
        } else {
            r + 1
        }
    }
}

/// The union of the runbooks' actions, first occurrence of each name kept,
/// in declaration order.
pub open spec fn spec_runbook_union(rbs: Seq<(Seq<char>, Seq<ActionView>)>) -> Seq<ActionView>
    decreases rbs.len(),
{
    if rbs.len() == 0 {
        Seq::empty()
    } else {
        spec_dedup_append(spec_runbook_union(rbs.drop_last()), rbs.last().1)
    }
}

/// Append the actions whose names are new, in order.
pub open spec fn spec_dedup_append(acc: Seq<ActionView>, more: Seq<ActionView>) -> Seq<ActionView>
    decreases more.len(),
{
    if more.len() == 0 {
        acc
    } else {
        let rest = spec_dedup_append(acc, more.drop_last());
        if spec_action_index(rest, more.last().name) == -1 {
            rest.push(more.last())
        } else {
            rest
        }
    }
}

/// The whitelist the agent validates LLM proposals against: the configured
/// actions; when none are configured, the union of the runbooks' actions;
/// when that is empty too, the crash-loop runbook.
pub open spec fn spec_known_actions(
    all_actions: Seq<ActionView>,
    rbs: Seq<(Seq<char>, Seq<ActionView>)>,
) -> Seq<ActionView> {
    if all_actions.len() > 0 {
        all_actions
    } else {
        let union = spec_runbook_union(rbs);
        if union.len() > 0 {
            union
        } else {
            spec_crashloop_actions()
        }
    }
}

fn action_index(acc: &Vec<ActionSchema>, name: &str) -> (r: Option<usize>)
    ensures
        match r {
            Some(i) => spec_action_index(acc.deep_view(), name@) == i,
            None => spec_action_index(acc.deep_view(), name@) == -1,
        },
{
    proof {
        lemma_action_index(acc.deep_view(), name@);
    }
    let mut i: usize = 0;
    while i < acc.len()
        invariant
            i <= acc@.len(),
            acc.deep_view().len() == acc@.len(),
            forall|j: int| 0 <= j < i ==> (#[trigger] acc.deep_view()[j]).name != name@,
        decreases acc@.len() - i,
    {
        if crate::strutil::str_eq(acc[i].name.as_str(), name) {
            proof {
                assert(acc.deep_view()[i as int].name == name@);
                lemma_action_index(acc.deep_view(), name@);
            }
            return Some(i);
        }
        i += 1;
    }
    None
}

/// What [`spec_action_index`] returns: the first position holding the name,
/// or -1 when no action holds it.
pub proof fn lemma_action_index(acc: Seq<ActionView>, name: Seq<char>)
    ensures
        -1 <= spec_action_index(acc, name) < acc.len(),
        spec_action_index(acc, name) >= 0 ==> acc[spec_action_index(acc, name)].name == name,
        spec_action_index(acc, name) == -1
            ==> forall|j: int| 0 <= j < acc.len() ==> (#[trigger] acc[j]).name != name,
        forall|j: int| 0 <= j < spec_action_index(acc, name) ==> (#[trigger] acc[j]).name != name,
    decreases acc.len(),
{
    if acc.len() > 0 && acc[0].name != name {
        lemma_action_index(acc.drop_first(), name);
        let dl = acc.drop_first();
        let r = spec_action_index(acc, name);
        if spec_action_index(dl, name) == -1 {
            assert forall|j: int| 0 <= j < acc.len() implies (#[trigger] acc[j]).name != name by {
                if j >= 1 {
                    assert(dl[j - 1] == acc[j]);
                }
            }
        } else {
            assert(acc[r] == dl[r - 1]);
            assert forall|j: int| 0 <= j < r implies (#[trigger] acc[j]).name != name by {
                if j >= 1 {
                    assert(dl[j - 1] == acc[j]);
                }
            }
        }
    }
}

/// The whitelist for LLM validation; see [`spec_known_actions`].
pub fn known_actions(config: &AgentConfig) -> (r: Vec<ActionSchema>)
    ensures
        r.deep_view() == spec_known_actions(
            config.all_actions.deep_view(),
            spec_runbooks_view(config.runbooks@),
        ),
{
    if config.all_actions.len() > 0 {
        let r = config.all_actions.clone();
        proof {
            assert(r.deep_view() =~= config.all_actions.deep_view());
        }
        return r;
    }
    let ghost rbs = spec_runbooks_view(config.runbooks@);
    let mut out: Vec<ActionSchema> = Vec::new();
    let mut i: usize = 0;
    proof {
        assert(out.deep_view() =~= spec_runbook_union(rbs.take(0)));
    }
    while i < config.runbooks.len()
        invariant
            rbs == spec_runbooks_view(config.runbooks@),
            rbs.len() == config.runbooks@.len(),
            i <= config.runbooks@.len(),
            out.deep_view() == spec_runbook_union(rbs.take(i as int)),
        decreases config.runbooks@.len() - i,
    {
        let ghost next_prefix = rbs.take(i + 1 as int);
        proof {
            assert(next_prefix.drop_last() =~= rbs.take(i as int));
            assert(next_prefix.last() == rbs[i as int]);
            assert(rbs[i as int] == (config.runbooks@[i as int].0@, config.runbooks@[i as int].1.deep_view()));
        }
        let runbook = &config.runbooks[i].1;
        let ghost actions = runbook.deep_view();
        let mut j: usize = 0;
        proof {
            assert(out.deep_view() =~= spec_dedup_append(out.deep_view(), actions.take(0)));
        }
        let ghost base = out.deep_view();
        while j < runbook.len()
            invariant
                actions == runbook.deep_view(),
                actions.len() == runbook@.len(),
                j <= runbook@.len(),
                out.deep_view() == spec_dedup_append(base, actions.take(j as int)),
            decreases runbook@.len() - j,
        {
            let ghost inner_next = actions.take(j + 1 as int);
            proof {
                assert(inner_next.drop_last() =~= actions.take(j as int));
                assert(inner_next.last() == actions[j as int]);
            }
            let ghost prev = out.deep_view();
            match action_index(&out, runbook[j].name.as_str()) {
                Some(_) => {},
                None => {
                    out.push(runbook[j].clone());
                    proof {
                        assert(out.deep_view() =~= prev.push(actions[j as int]));
                    }
                },
            }
            j += 1;
        }
        proof {
            assert(actions.take(actions.len() as int) =~= actions);
        }
        i += 1;
    }
    proof {
        assert(rbs.take(rbs.len() as int) =~= rbs);
    }
    if out.len() == 0 {
        let r = crashloop_runbook();
        return r;
    }
    out
}

/// The decimal digits of a number.
pub open spec fn spec_decimal(n: nat) -> Seq<char>
    decreases n,
{
    let digit = (('0' as u8) + (n % 10) as u8) as char;
    if n < 10 {
        seq![digit]
    } else {
        spec_decimal(n / 10).push(digit)
    }
}

/// Render a number in decimal.
pub fn usize_to_string(n: usize) -> (r: String)
    ensures
        r@ == spec_decimal(n as nat),
{
    let mut digits: Vec<char> = Vec::new();
    let mut m: usize = n;
    while m >= 10
        invariant
            spec_decimal(n as nat) == spec_decimal(m as nat) + digits@.reverse(),
        decreases m,
    {
        let d: u8 = (m % 10) as u8;
        let c: char = (('0' as u8) + d) as char;
        let ghost before = digits@;
        digits.push(c);
        m = m / 10;
        proof {
            assert(digits@.reverse() =~= seq![c] + before.reverse());
            assert(spec_decimal((m * 10 + d) as nat) == spec_decimal(m as nat).push(c));
            assert(spec_decimal(m as nat).push(c) + before.reverse()
                =~= spec_decimal(m as nat) + (seq![c] + before.reverse()));
        }
    }
    let d: u8 = (m % 10) as u8;
    let c: char = (('0' as u8) + d) as char;
    let ghost before = digits@;
    digits.push(c);
    proof {
        assert(digits@.reverse() =~= seq![c] + before.reverse());
        assert(spec_decimal(m as nat) =~= seq![c]);
        assert(spec_decimal(n as nat) =~= seq![c] + before.reverse());
    }
    let mut out: Vec<char> = Vec::new();
    let mut i: usize = digits.len();
    while i > 0
        invariant
            i <= digits@.len(),
            out@.len() == digits@.len() - i,
            forall|j: int| 0 <= j < out@.len() ==> out@[j] == digits@.reverse()[j],
        decreases i,
    {
        out.push(digits[i - 1]);
        i -= 1;
    }
    proof {
        assert(out@ =~= digits@.reverse());
    }
    string_from_chars(&out)
}

/// The `FactAsserted` event the agent appends for an inbound fact, except
/// for its id.
pub open spec fn spec_fact_asserted_event(f: FactView, now: Seq<char>) -> EventView {
    EventView {
        id: None,
        incident_id: spec_incident_id_of(f),
        event_type: EventType::FactAsserted,
        description: "fact asserted"@,
        details: Some(spec_fact_json(f)),
        timestamp: now,
    }
}

/// The `PlanSelected` event for a matched runbook, except for its id.
pub open spec fn spec_runbook_selected_event(
    incident_id: Seq<char>,
    name: Seq<char>,
    steps: Seq<ActionView>,
    now: Seq<char>,
) -> EventView {
    EventView {
        id: None,
        incident_id: incident_id,
        event_type: EventType::PlanSelected,
        description: "selected runbook: "@ + name,
        details: Some(spec_runbook_json(steps)),
        timestamp: now,
    }
}

/// The `Escalated` event for a planning failure, except for its id.
pub open spec fn spec_no_plan_event(
    incident_id: Seq<char>,
    reason: Seq<char>,
    now: Seq<char>,
) -> EventView {
    EventView {
        id: None,
        incident_id: incident_id,
        event_type: EventType::Escalated,
        description: "escalation required"@,
        details: Some(
            JsonVal::Obj(
                seq![("status"@, JsonVal::Str("failed"@)), ("reason"@, JsonVal::Str(reason))],
            ),
        ),
        timestamp: now,
    }
}

/// Record a planning failure: appends one `Escalated` event carrying the
/// reason and returns the request for the escalation channel.
pub fn escalate_no_plan(
    log: &mut EventLog,
    incident_id: String,
    reason: &str,
    now: &str,
) -> (r: EscalationRequest)
    requires
        old(log).wf(),
        old(log)@.len() < i64::MAX,
    ensures
        final(log).wf(),
        final(log)@ =~= old(log)@.push(
            spec_with_id(
                spec_no_plan_event(incident_id@, reason@, now@),
                (old(log)@.len() + 1) as i64,
            ),
        ),
        r@.incident_id == incident_id@,
        r@.reason == reason@,
{
    let mut fields: Vec<(String, JsonValue)> = Vec::new();
    fields.push((String::from_str("status"), JsonValue::Str(String::from_str("failed"))));
    fields.push((String::from_str("reason"), JsonValue::Str(reason.to_owned())));
    let details = JsonValue::Obj(fields);
    proof {
        reveal_with_fuel(crate::json::view_json, 3);
        assert(details@->Obj_0 =~= spec_no_plan_event(incident_id@, reason@, now@).details->0->Obj_0);
        assert(details@ =~~= spec_no_plan_event(incident_id@, reason@, now@).details->0);
    }
    let event = Event {
        id: None,
        incident_id: incident_id.clone(),
        event_type: EventType::Escalated,
        description: String::from_str("escalation required"),
        details: Some(details),
        timestamp: now.to_owned(),
    };
    let _ = log.append(&event);
    EscalationRequest { incident_id, reason: reason.to_owned() }
}

/// How planning for one fact came out.
#[derive(Debug)]
pub enum FactOutcome {
    /// A runbook matched; its steps are the plan, and the `PlanSelected`
    /// event is in the log.
    Planned(Vec<ActionSchema>),
    /// No runbook matched and an LLM is attached: the caller runs the LLM
    /// round trip and continues with [`accept_llm_actions`].
    NeedsLlm,
    /// No runbook matched and no LLM is attached: the escalation is in the
    /// log and this request goes on the escalation channel.
    Escalated(EscalationRequest),
}

/// What planning decides for a fact: the first declared runbook matching
/// its detected pattern, if any.
pub open spec fn spec_plan_decision(
    rbs: Seq<(Seq<char>, Seq<ActionView>)>,
    f: FactView,
) -> Option<(Seq<char>, Seq<ActionView>)> {
    spec_select_runbook(spec_detect_pattern(f), rbs)
}

/// Assert an inbound fact and try to plan for it from the declared
/// runbooks.
///
/// Always appends the `FactAsserted` event. A matching runbook also appends
/// its `PlanSelected` event and returns the plan. Otherwise, with an LLM
/// attached, nothing more is appended and the LLM hand-off is returned;
/// without one, the `no matching runbook` escalation is appended and
/// returned.
pub fn assert_fact_and_plan(
    log: &mut EventLog,
    config: &AgentConfig,
    fact: &Fact,
    now: &str,
) -> (r: FactOutcome)
    requires
        old(log).wf(),
        old(log)@.len() + 2 <= i64::MAX,
    ensures
        final(log).wf(),
        ({
            let asserted = old(log)@.push(
                spec_with_id(spec_fact_asserted_event(fact@, now@), (old(log)@.len() + 1) as i64),
            );
            let sel = spec_plan_decision(spec_runbooks_view(config.runbooks@), fact@);
            match r {
                FactOutcome::Planned(steps) => {
                    &&& sel matches Some(pair) && steps.deep_view() == pair.1
                        && final(log)@ =~= asserted.push(
                        spec_with_id(
                            spec_runbook_selected_event(
                                spec_incident_id_of(fact@),
                                pair.0,
                                pair.1,
                                now@,
                            ),
                            (old(log)@.len() + 2) as i64,
                        ),
                    )
                },
                FactOutcome::NeedsLlm => {
                    &&& sel is None
                    &&& config.llm_enabled
                    &&& final(log)@ =~= asserted
                },
                FactOutcome::Escalated(req) => {
                    &&& sel is None
                    &&& !config.llm_enabled
                    &&& req@.incident_id == spec_incident_id_of(fact@)
                    &&& req@.reason == "no matching runbook"@
                    &&& final(log)@ =~= asserted.push(
                        spec_with_id(
                            spec_no_plan_event(
                                spec_incident_id_of(fact@),
                                "no matching runbook"@,
                                now@,
                            ),
                            (old(log)@.len() + 2) as i64,
                        ),
                    )
                },
            }
        }),
{
    let incident_id = incident_id_from_fact(fact).clone();
    let asserted_event = Event {
        id: None,
        incident_id: incident_id.clone(),
        event_type: EventType::FactAsserted,
        description: String::from_str("fact asserted"),
        details: Some(fact_to_json(fact)),
        timestamp: now.to_owned(),
    };
    let _ = log.append(&asserted_event);

    let pattern = detect_pattern(fact);
    match select_runbook(pattern, config.runbooks.as_slice()) {
        Some((name, runbook)) => {
            let mut description = String::from_str("selected runbook: ");
            description.append(name);
            let plan_event = Event {
                id: None,
                incident_id,
                event_type: EventType::PlanSelected,
                description,
                details: Some(runbook_json(&runbook)),
                timestamp: now.to_owned(),
            };
            let _ = log.append(&plan_event);
            FactOutcome::Planned(runbook)
        },
        None => {
            if config.llm_enabled {
                FactOutcome::NeedsLlm
            } else {
                let req = escalate_no_plan(log, incident_id, "no matching runbook", now);
                FactOutcome::Escalated(req)
            }
        },
    }
}

/// The `PlanSelected` event for an accepted LLM plan, except for its id.
pub open spec fn spec_llm_plan_event(
    incident_id: Seq<char>,
    hypothesis: Seq<char>,
    steps: Seq<ActionView>,
    now: Seq<char>,
) -> EventView {
    EventView {
        id: None,
        incident_id: incident_id,
        event_type: EventType::PlanSelected,
        description: "LLM-proposed plan: "@ + spec_decimal(steps.len()) + " steps ("@ + hypothesis
            + ")"@,
        details: Some(spec_runbook_json(steps)),
        timestamp: now,
    }
}

/// Gate an LLM proposal and either adopt or reject it.
///
/// The proposed names are validated against the whitelist (the candidate
/// fallback included). A non-empty validated plan appends its
/// `PlanSelected` event and is returned; an empty one appends the
/// `no valid llm plan` escalation and returns the request. Callers whose
/// LLM round trip failed outright call [`escalate_no_plan`] with the same
/// reason instead.
pub fn accept_llm_actions(
    log: &mut EventLog,
    incident_id: String,
    hypothesis: &str,
    names: &Vec<String>,
    candidate_actions: &Vec<String>,
    all_actions: &Vec<ActionSchema>,
    now: &str,
) -> (r: Result<Vec<ActionSchema>, EscalationRequest>)
    requires
        old(log).wf(),
        old(log)@.len() < i64::MAX,
    ensures
        final(log).wf(),
        ({
            let plan = spec_validate_actions(
                names.deep_view(),
                candidate_actions.deep_view(),
                all_actions.deep_view(),
            );
            match r {
                Ok(steps) => {
                    &&& steps.deep_view() == plan
                    &&& plan.len() > 0
                    &&& forall|i: int| 0 <= i < plan.len()
                        ==> all_actions.deep_view().contains(#[trigger] plan[i])
                    &&& final(log)@ =~= old(log)@.push(
                        spec_with_id(
                            spec_llm_plan_event(incident_id@, hypothesis@, plan, now@),
                            (old(log)@.len() + 1) as i64,
                        ),
                    )
                },
                Err(req) => {
                    &&& plan.len() == 0
                    &&& req@.incident_id == incident_id@
                    &&& req@.reason == "no valid llm plan"@
                    &&& final(log)@ =~= old(log)@.push(
                        spec_with_id(
                            spec_no_plan_event(incident_id@, "no valid llm plan"@, now@),
                            (old(log)@.len() + 1) as i64,
                        ),
                    )
                },
            }
        }),
{
    let actions = validate_actions(names, candidate_actions, all_actions);
    if actions.len() == 0 {
        let req = escalate_no_plan(log, incident_id, "no valid llm plan", now);
        return Err(req);
    }
    let mut description = String::from_str("LLM-proposed plan: ");
    let count = usize_to_string(actions.len());
    description.append(count.as_str());
    description.append(" steps (");
    description.append(hypothesis);
    description.append(")");
    let plan_event = Event {
        id: None,
        incident_id,
        event_type: EventType::PlanSelected,
        description,
        details: Some(runbook_json(&actions)),
        timestamp: now.to_owned(),
    };
    let _ = log.append(&plan_event);
    Ok(actions)
}

/// The `Resolved` event the agent appends on a successful run, except for
/// its id.
pub open spec fn spec_agent_resolved_event(incident_id: Seq<char>, now: Seq<char>) -> EventView {
    EventView {
        id: None,
        incident_id: incident_id,
        event_type: EventType::Resolved,
        description: "incident resolved"@,
        details: None,
        timestamp: now,
    }
}

/// The `Escalated` event for a failed step, except for its id.
pub open spec fn spec_step_escalated_event(
    incident_id: Seq<char>,
    a: ActionView,
    reason: Seq<char>,
    now: Seq<char>,
) -> EventView {
    EventView {
        id: None,
        incident_id: incident_id,
        event_type: EventType::Escalated,
        description: "escalation required"@,
        details: Some(
            JsonVal::Obj(
                seq![
                    ("name"@, JsonVal::Str(a.name)),
                    ("effect"@, JsonVal::Str(spec_effect_name(a.effect))),
                    ("status"@, JsonVal::Str("failed"@)),
                    ("reason"@, JsonVal::Str(reason)),
                ],
            ),
        ),
        timestamp: now,
    }
}

/// Close an executed plan: a success appends the `Resolved` event; a failed
/// step appends its `Escalated` event and returns the request for the
/// escalation channel.
pub fn finish_execution(
    log: &mut EventLog,
    incident_id: String,
    outcome: Result<(), (ActionSchema, String)>,
    now: &str,
) -> (r: Option<EscalationRequest>)
    requires
        old(log).wf(),
        old(log)@.len() < i64::MAX,
    ensures
        final(log).wf(),
        match outcome {
            Ok(()) => {
                &&& r is None
                &&& final(log)@ =~= old(log)@.push(
                    spec_with_id(
                        spec_agent_resolved_event(incident_id@, now@),
                        (old(log)@.len() + 1) as i64,
                    ),
                )
            },
            Err((failed_step, reason)) => {
                &&& r matches Some(req) && req@.incident_id == incident_id@
                    && req@.reason == reason@
                &&& final(log)@ =~= old(log)@.push(
                    spec_with_id(
                        spec_step_escalated_event(incident_id@, failed_step@, reason@, now@),
                        (old(log)@.len() + 1) as i64,
                    ),
                )
            },
        },
{
    match outcome {
        Ok(()) => {
            let event = Event {
                id: None,
                incident_id,
                event_type: EventType::Resolved,
                description: String::from_str("incident resolved"),
                details: None,
                timestamp: now.to_owned(),
            };
            let _ = log.append(&event);
            None
        },
        Err((failed_step, reason)) => {
            let mut fields: Vec<(String, JsonValue)> = Vec::new();
            fields.push((String::from_str("name"), JsonValue::Str(failed_step.name.clone())));
            fields.push((String::from_str("effect"), JsonValue::Str(failed_step.effect.name_string())));
            fields.push((String::from_str("status"), JsonValue::Str(String::from_str("failed"))));
            fields.push((String::from_str("reason"), JsonValue::Str(reason.clone())));
            let details = JsonValue::Obj(fields);
            proof {
                reveal_with_fuel(crate::json::view_json, 3);
                assert(details@->Obj_0 =~= spec_step_escalated_event(
                    incident_id@,
                    failed_step@,
                    reason@,
                    now@,
                ).details->0->Obj_0);
                assert(details@ =~~= spec_step_escalated_event(
                    incident_id@,
                    failed_step@,
                    reason@,
                    now@,
                ).details->0);
            }
            let event = Event {
                id: None,
                incident_id: incident_id.clone(),
                event_type: EventType::Escalated,
                description: String::from_str("escalation required"),
                details: Some(details),
                timestamp: now.to_owned(),
            };
            let _ = log.append(&event);
            Some(EscalationRequest { incident_id, reason })
        },
    }
}

/// How one fact's whole cycle came out.
#[derive(Debug)]
pub enum ProcessOutcome {
    /// The cycle is complete; an escalation request, if one arose, goes on
    /// the escalation channel.
    Done(Option<EscalationRequest>),
    /// No runbook matched and an LLM is attached: the caller runs the LLM
    /// round trip, continues with [`accept_llm_actions`], executes the
    /// accepted plan and closes it with [`finish_execution`].
    NeedsLlm,
}

/// The whole cycle for one inbound fact, short of the LLM round trip.
///
/// Asserts the fact; a matching runbook is announced, executed step by
/// step, and closed with a `Resolved` event or, from the first failed
/// step, an `Escalated` event. Without a match the cycle escalates at once
/// — or, with an LLM attached, stops after the assertion and hands over to
/// the caller.
pub fn process_fact<F: Fn(ActionSchema) -> Result<JsonValue, String>>(
    log: &mut EventLog,
    config: &AgentConfig,
    fact: &Fact,
    tool_executor: &F,
    now: &str,
) -> (r: ProcessOutcome)
    requires
        old(log).wf(),
        forall|a: ActionSchema| call_requires(*tool_executor, (a,)),
        old(log)@.len() + 3 + 2 * (match spec_plan_decision(
            spec_runbooks_view(config.runbooks@),
            fact@,
        ) {
            Some(pair) => pair.1.len(),
            None => 0,
        }) <= i64::MAX,
    ensures
        final(log).wf(),
        final(log)@.len() >= old(log)@.len() + 1,
        final(log)@.subrange(0, old(log)@.len() as int) == old(log)@,
        final(log)@[old(log)@.len() as int] == spec_with_id(
            spec_fact_asserted_event(fact@, now@),
            (old(log)@.len() + 1) as i64,
        ),
        ({
            let inc = spec_incident_id_of(fact@);
            let sel = spec_plan_decision(spec_runbooks_view(config.runbooks@), fact@);
            let exec_base = old(log)@.len() + 2;
            match r {
                ProcessOutcome::NeedsLlm => {
                    &&& sel is None
                    &&& config.llm_enabled
                    &&& final(log)@.len() == old(log)@.len() + 1
                },
                ProcessOutcome::Done(escalation) => {
                    if sel is None {
                        &&& !config.llm_enabled
                        &&& final(log)@.len() == old(log)@.len() + 2
                        &&& final(log)@.last() == spec_with_id(
                            spec_no_plan_event(inc, "no matching runbook"@, now@),
                            (old(log)@.len() + 2) as i64,
                        )
                        &&& escalation matches Some(req) && req@.incident_id == inc
                            && req@.reason == "no matching runbook"@
                    } else {
                        let pair = sel->0;
                        let steps = pair.1;
                        &&& final(log)@[old(log)@.len() + 1 as int] == spec_with_id(
                            spec_runbook_selected_event(inc, pair.0, steps, now@),
                            (old(log)@.len() + 2) as i64,
                        )
                        &&& match escalation {
                            None => {
                                &&& final(log)@.len() == exec_base + 2 * steps.len() + 1
                                &&& forall|j: int| 0 <= j < steps.len()
                                    ==> crate::executor::spec_is_intent_event(
                                        final(log)@[exec_base + 2 * j],
                                        inc,
                                        #[trigger] steps[j],
                                        now@,
                                    )
                                &&& forall|j: int| 0 <= j < steps.len()
                                    ==> crate::executor::spec_step_succeeded(
                                        final(log)@[exec_base + 2 * j + 1],
                                        inc,
                                        #[trigger] steps[j],
                                        now@,
                                    )
                                &&& final(log)@.last() == spec_with_id(
                                    spec_agent_resolved_event(inc, now@),
                                    final(log)@.len() as i64,
                                )
                                &&& exists|args: Seq<ActionSchema>, outs: Seq<JsonValue>|
                                    crate::executor::spec_results_from_tool(
                                        *tool_executor,
                                        final(log)@,
                                        exec_base as int,
                                        inc,
                                        steps,
                                        steps.len() as int,
                                        now@,
                                        args,
                                        outs,
                                    )
                            },
                            Some(req) => exists|k: int| {
                                &&& 0 <= k < steps.len()
                                &&& final(log)@.len() == exec_base + 2 * k + 2 + 1
                                &&& forall|j: int| 0 <= j < k
                                    ==> crate::executor::spec_is_intent_event(
                                        final(log)@[exec_base + 2 * j],
                                        inc,
                                        #[trigger] steps[j],
                                        now@,
                                    )
                                &&& forall|j: int| 0 <= j < k
                                    ==> crate::executor::spec_step_succeeded(
                                        final(log)@[exec_base + 2 * j + 1],
                                        inc,
                                        #[trigger] steps[j],
                                        now@,
                                    )
                                &&& crate::executor::spec_is_intent_event(
                                    final(log)@[exec_base + 2 * k],
                                    inc,
                                    steps[k],
                                    now@,
                                )
                                &&& crate::executor::spec_is_failed_event(
                                    final(log)@[exec_base + 2 * k + 1],
                                    inc,
                                    steps[k],
                                    req@.reason,
                                    now@,
                                )
                                &&& final(log)@.last() == spec_with_id(
                                    spec_step_escalated_event(inc, steps[k], req@.reason, now@),
                                    final(log)@.len() as i64,
                                )
                                &&& req@.incident_id == inc
                                &&& exists|args: Seq<ActionSchema>, outs: Seq<JsonValue>|
                                    crate::executor::spec_results_from_tool(
                                        *tool_executor,
                                        final(log)@,
                                        exec_base as int,
                                        inc,
                                        steps,
                                        k,
                                        now@,
                                        args,
                                        outs,
                                    )
                                &&& exists|arg: ActionSchema, emsg: String| arg@ == steps[k]
                                    && emsg@ == req@.reason
                                    && call_ensures(*tool_executor, (arg,), Err::<JsonValue, String>(emsg))
                            },
                        }
                    }
                },
            }
        }),
{
    let incident_id = incident_id_from_fact(fact).clone();
    let ghost log0 = log@;
    let outcome = assert_fact_and_plan(log, config, fact, now);
    let ghost log1 = log@;
    let steps = match outcome {
        FactOutcome::Planned(steps) => steps,
        FactOutcome::NeedsLlm => {
            return ProcessOutcome::NeedsLlm;
        },
        FactOutcome::Escalated(req) => {
            return ProcessOutcome::Done(Some(req));
        },
    };
    let run = execute_plan_for_agent(log, incident_id.as_str(), &steps, tool_executor, now);
    let ghost log2 = log@;
    let ghost run_snapshot = run;
    let escalation = finish_execution(log, incident_id, run, now);
    proof {
        let inc = spec_incident_id_of(fact@);
        let sel = spec_plan_decision(spec_runbooks_view(config.runbooks@), fact@);
        let exec_base = log0.len() + 2;
        assert(log@.subrange(0, log0.len() as int) =~= log0) by {
            assert forall|i: int| 0 <= i < log0.len()
                implies log@.subrange(0, log0.len() as int)[i] == log0[i] by {
                assert(log2.subrange(0, log1.len() as int)[i] == log2[i]);
            }
        }
        assert(log@[log0.len() as int] == log2[log0.len() as int]);
        assert(log2.subrange(0, log1.len() as int)[log0.len() as int] == log2[log0.len() as int]);
        assert(log@[log0.len() + 1 as int] == log2[log0.len() + 1 as int]);
        assert(log2.subrange(0, log1.len() as int)[log0.len() + 1 as int] == log2[log0.len() + 1 as int]);
        match run_snapshot {
            Ok(()) => {
                assert forall|j: int| 0 <= j < steps.deep_view().len()
                    implies crate::executor::spec_is_intent_event(
                        log@[exec_base + 2 * j],
                        inc,
                        #[trigger] steps.deep_view()[j],
                        now@,
                    ) && crate::executor::spec_step_succeeded(
                        log@[exec_base + 2 * j + 1],
                        inc,
                        steps.deep_view()[j],
                        now@,
                    ) by {
                    assert(crate::executor::spec_is_intent_event(
                        log2[log1.len() + 2 * j],
                        inc,
                        steps.deep_view()[j],
                        now@,
                    ));
                    assert(crate::executor::spec_step_succeeded(
                        log2[log1.len() + 2 * j + 1],
                        inc,
                        steps.deep_view()[j],
                        now@,
                    ));
                    assert(log@[log1.len() + 2 * j] == log2[log1.len() + 2 * j]);
                    assert(log@[log1.len() + 2 * j + 1] == log2[log1.len() + 2 * j + 1]);
                }
                let (argsw, outsw): (Seq<ActionSchema>, Seq<JsonValue>) = choose|
                    a2: Seq<ActionSchema>,
                    o2: Seq<JsonValue>,
                |
                    crate::executor::spec_results_from_tool(
                        *tool_executor,
                        log2,
                        log1.len() as int,
                        inc,
                        steps.deep_view(),
                        steps@.len() as int,
                        now@,
                        a2,
                        o2,
                    );
                assert(crate::executor::spec_results_from_tool(
                    *tool_executor,
                    log@,
                    exec_base as int,
                    inc,
                    steps.deep_view(),
                    steps@.len() as int,
                    now@,
                    argsw,
                    outsw,
                )) by {
                    assert forall|j: int| 0 <= j < steps@.len()
                        implies crate::executor::spec_is_done_event(
                            log@[exec_base + 2 * j + 1],
                            inc,
                            steps.deep_view()[j],
                            (#[trigger] outsw[j])@,
                            now@,
                        ) by {
                        assert(crate::executor::spec_is_done_event(
                            log2[log1.len() + 2 * j + 1],
                            inc,
                            steps.deep_view()[j],
                            outsw[j]@,
                            now@,
                        ));
                        assert(log@[log1.len() + 2 * j + 1] == log2[log1.len() + 2 * j + 1]);
                    }
                }
                assert(exists|a2: Seq<ActionSchema>, o2: Seq<JsonValue>|
                    crate::executor::spec_results_from_tool(
                        *tool_executor,
                        log@,
                        exec_base as int,
                        inc,
                        steps.deep_view(),
                        steps@.len() as int,
                        now@,
                        a2,
                        o2,
                    )) by {
                    assert(crate::executor::spec_results_from_tool(
                        *tool_executor,
                        log@,
                        exec_base as int,
                        inc,
                        steps.deep_view(),
                        steps@.len() as int,
                        now@,
                        argsw,
                        outsw,
                    ));
                }
            },
            Err((failed_step, reason)) => {
                assert(forall|j: int| 0 <= j < steps@.len()
                    ==> steps.deep_view()[j] == (#[trigger] steps@[j])@);
                let k = choose|k: int| {
                    &&& 0 <= k < steps@.len()
                    &&& failed_step@ == (#[trigger] steps@[k])@
                    &&& log2.len() == log1.len() + 2 * k + 2
                    &&& forall|j: int| 0 <= j < k ==> crate::executor::spec_is_intent_event(
                        log2[log1.len() + 2 * j],
                        inc,
                        (#[trigger] steps@[j])@,
                        now@,
                    )
                    &&& forall|j: int| 0 <= j < k ==> crate::executor::spec_step_succeeded(
                        log2[log1.len() + 2 * j + 1],
                        inc,
                        (#[trigger] steps@[j])@,
                        now@,
                    )
                    &&& crate::executor::spec_is_intent_event(
                        log2[log1.len() + 2 * k],
                        inc,
                        steps@[k]@,
                        now@,
                    )
                    &&& crate::executor::spec_is_failed_event(
                        log2[log1.len() + 2 * k + 1],
                        inc,
                        steps@[k]@,
                        reason@,
                        now@,
                    )
                    &&& exists|arg: ActionSchema| arg@ == steps@[k]@
                        && call_ensures(*tool_executor, (arg,), Err::<JsonValue, String>(reason))
                    &&& exists|a2: Seq<ActionSchema>, o2: Seq<JsonValue>|
                        crate::executor::spec_results_from_tool(
                            *tool_executor,
                            log2,
                            log1.len() as int,
                            inc,
                            steps.deep_view(),
                            k,
                            now@,
                            a2,
                            o2,
                        )
                };
                assert forall|j: int| 0 <= j < k
                    implies crate::executor::spec_is_intent_event(
                        log@[exec_base + 2 * j],
                        inc,
                        #[trigger] steps.deep_view()[j],
                        now@,
                    ) && crate::executor::spec_step_succeeded(
                        log@[exec_base + 2 * j + 1],
                        inc,
                        steps.deep_view()[j],
                        now@,
                    ) by {
                    assert(crate::executor::spec_is_intent_event(
                        log2[log1.len() + 2 * j],
                        inc,
                        steps@[j]@,
                        now@,
                    ));
                    assert(crate::executor::spec_step_succeeded(
                        log2[log1.len() + 2 * j + 1],
                        inc,
                        steps@[j]@,
                        now@,
                    ));
                    assert(log@[log1.len() + 2 * j] == log2[log1.len() + 2 * j]);
                    assert(log@[log1.len() + 2 * j + 1] == log2[log1.len() + 2 * j + 1]);
                }
                assert(log@[exec_base + 2 * k] == log2[log1.len() + 2 * k]);
                assert(log@[exec_base + 2 * k + 1] == log2[log1.len() + 2 * k + 1]);
                assert(steps.deep_view()[k] == steps@[k]@);
                let (argsw, outsw): (Seq<ActionSchema>, Seq<JsonValue>) = choose|
                    a2: Seq<ActionSchema>,
                    o2: Seq<JsonValue>,
                |
                    crate::executor::spec_results_from_tool(
                        *tool_executor,
                        log2,
                        log1.len() as int,
                        inc,
                        steps.deep_view(),
                        k,
                        now@,
                        a2,
                        o2,
                    );
                assert(crate::executor::spec_results_from_tool(
                    *tool_executor,
                    log@,
                    exec_base as int,
                    inc,
                    steps.deep_view(),
                    k,
                    now@,
                    argsw,
                    outsw,
                )) by {
                    assert forall|j: int| 0 <= j < k
                        implies crate::executor::spec_is_done_event(
                            log@[exec_base + 2 * j + 1],
                            inc,
                            steps.deep_view()[j],
                            (#[trigger] outsw[j])@,
                            now@,
                        ) by {
                        assert(crate::executor::spec_is_done_event(
                            log2[log1.len() + 2 * j + 1],
                            inc,
                            steps.deep_view()[j],
                            outsw[j]@,
                            now@,
                        ));
                        assert(log@[log1.len() + 2 * j + 1] == log2[log1.len() + 2 * j + 1]);
                    }
                }
                assert(exists|a2: Seq<ActionSchema>, o2: Seq<JsonValue>|
                    crate::executor::spec_results_from_tool(
                        *tool_executor,
                        log@,
                        exec_base as int,
                        inc,
                        steps.deep_view(),
                        k,
                        now@,
                        a2,
                        o2,
                    )) by {
                    assert(crate::executor::spec_results_from_tool(
                        *tool_executor,
                        log@,
                        exec_base as int,
                        inc,
                        steps.deep_view(),
                        k,
                        now@,
                        argsw,
                        outsw,
                    ));
                }
                let argw: ActionSchema = choose|arg: ActionSchema| arg@ == steps@[k]@
                    && call_ensures(*tool_executor, (arg,), Err::<JsonValue, String>(reason));
                assert(exists|arg: ActionSchema, emsg: String| arg@ == steps.deep_view()[k]
                    && emsg@ == reason@
                    && call_ensures(*tool_executor, (arg,), Err::<JsonValue, String>(emsg))) by {
                    assert(argw@ == steps.deep_view()[k]
                        && call_ensures(*tool_executor, (argw,), Err::<JsonValue, String>(reason)));
                }
            },
        }
    }
    ProcessOutcome::Done(escalation)
}

} // verus!
