//! Sequential plan execution.
//!
//! Each step is announced with an `ActionIntent` event, run through the tool
//! executor, and closed with an `ActionResult` event. Steps run strictly in
//! order; the first failure stops the plan, so later steps leave no trace in
//! the log. The contract of [`execute_plan`] pins the exact sequence of
//! events appended.

use vstd::prelude::*;
use crate::effects::spec_effect_name;
use crate::event_log::{Event, EventLog, EventType, EventView};
use crate::json::{JsonVal, JsonValue};
use crate::runbooks::{ActionSchema, ActionView};

verus! {

use vstd::string::StringExecFns;

/// Details of an `ActionIntent` event: the step named, its effect, status
/// `running`, and the tool-call side channel announcing the request.
pub open spec fn spec_intent_details(a: ActionView) -> JsonVal {
    JsonVal::Obj(
        seq![
            ("name"@, JsonVal::Str(a.name)),
            ("effect"@, JsonVal::Str(spec_effect_name(a.effect))),
            ("status"@, JsonVal::Str("running"@)),
            (
                "mcp"@,
                JsonVal::Obj(
                    seq![
                        ("tool_name"@, JsonVal::Str(a.name)),
                        ("phase"@, JsonVal::Str("intent"@)),
                        (
                            "request"@,
                            JsonVal::Obj(
                                seq![
                                    ("name"@, JsonVal::Str(a.name)),
                                    ("effect"@, JsonVal::Str(spec_effect_name(a.effect))),
                                ],
                            ),
                        ),
                    ],
                ),
            ),
        ],
    )
}

/// Details of a successful `ActionResult` event: status `done` and the tool
/// output, in the main body and in the side channel.
pub open spec fn spec_done_details(a: ActionView, out: JsonVal) -> JsonVal {
    JsonVal::Obj(
        seq![
            ("name"@, JsonVal::Str(a.name)),
            ("effect"@, JsonVal::Str(spec_effect_name(a.effect))),
            ("status"@, JsonVal::Str("done"@)),
            ("result"@, out),
            (
                "mcp"@,
                JsonVal::Obj(
                    seq![
                        ("tool_name"@, JsonVal::Str(a.name)),
                        ("phase"@, JsonVal::Str("result"@)),
                        ("ok"@, JsonVal::Bool(true)),
                        ("output"@, out),
                    ],
                ),
            ),
        ],
    )
}

/// Details of a failed `ActionResult` event: status `failed` and the error,
/// in the main body and in the side channel.
pub open spec fn spec_failed_details(a: ActionView, err: Seq<char>) -> JsonVal {
    JsonVal::Obj(
        seq![
            ("name"@, JsonVal::Str(a.name)),
            ("effect"@, JsonVal::Str(spec_effect_name(a.effect))),
            ("status"@, JsonVal::Str("failed"@)),
            ("error"@, JsonVal::Str(err)),
            (
                "mcp"@,
                JsonVal::Obj(
                    seq![
                        ("tool_name"@, JsonVal::Str(a.name)),
                        ("phase"@, JsonVal::Str("result"@)),
                        ("ok"@, JsonVal::Bool(false)),
                        ("error"@, JsonVal::Str(err)),
                    ],
                ),
            ),
        ],
    )
}

/// The event announcing a step, except for the id the log assigns.
pub open spec fn spec_is_intent_event(
    e: EventView,
    incident_id: Seq<char>,
    a: ActionView,
    ts: Seq<char>,
) -> bool {
    &&& e.incident_id == incident_id
    &&& e.event_type == EventType::ActionIntent
    &&& e.description == "intent: "@ + a.name
    &&& e.details == Some(spec_intent_details(a))
    &&& e.timestamp == ts
}

/// The event recording a step's success, except for the id.
pub open spec fn spec_is_done_event(
    e: EventView,
    incident_id: Seq<char>,
    a: ActionView,
    out: JsonVal,
    ts: Seq<char>,
) -> bool {
    &&& e.incident_id == incident_id
    &&& e.event_type == EventType::ActionResult
    &&& e.description == "action succeeded: "@ + a.name
    &&& e.details == Some(spec_done_details(a, out))
    &&& e.timestamp == ts
}

/// The event recording a step's failure, except for the id.
pub open spec fn spec_is_failed_event(
    e: EventView,
    incident_id: Seq<char>,
    a: ActionView,
    err: Seq<char>,
    ts: Seq<char>,
) -> bool {
    &&& e.incident_id == incident_id
    &&& e.event_type == EventType::ActionResult
    &&& e.description == "action failed: "@ + a.name
    &&& e.details == Some(spec_failed_details(a, err))
    &&& e.timestamp == ts
}

/// A recorded step success: some tool output `out` that the executor was
/// handed back closes the step.
pub open spec fn spec_step_succeeded(
    e: EventView,
    incident_id: Seq<char>,
    a: ActionView,
    ts: Seq<char>,
) -> bool {
    exists|out: JsonVal| spec_is_done_event(e, incident_id, a, out, ts)
}

/// The recorded results of the first `n` steps came from the tool executor:
/// `args` and `outs` witness, per step, an invocation argument with the
/// step's value and an output the executor's own contract admits for it,
/// and the step's `ActionResult` at `log[base + 2*j + 1]` records exactly
/// that output.
pub open spec fn spec_results_from_tool<F: Fn(ActionSchema) -> Result<JsonValue, String>>(
    tool_executor: F,
    log: Seq<EventView>,
    base: int,
    incident_id: Seq<char>,
    steps: Seq<ActionView>,
    n: int,
    ts: Seq<char>,
    args: Seq<ActionSchema>,
    outs: Seq<JsonValue>,
) -> bool {
    &&& args.len() == n
    &&& outs.len() == n
    &&& forall|j: int| 0 <= j < n ==> (#[trigger] args[j])@ == steps[j]
    &&& forall|j: int| 0 <= j < n ==> call_ensures(
        tool_executor,
        ((#[trigger] args[j]),),
        Ok::<JsonValue, String>(outs[j]),
    )
    &&& forall|j: int| 0 <= j < n ==> spec_is_done_event(
        log[base + 2 * j + 1],
        incident_id,
        steps[j],
        (#[trigger] outs[j])@,
        ts,
    )
}

fn intent_details(step: &ActionSchema) -> (r: JsonValue)
    ensures
        r@ == spec_intent_details(step@),
{
    let mut request: Vec<(String, JsonValue)> = Vec::new();
    request.push((String::from_str("name"), JsonValue::Str(step.name.clone())));
    request.push((String::from_str("effect"), JsonValue::Str(step.effect.name_string())));
    let mut mcp: Vec<(String, JsonValue)> = Vec::new();
    mcp.push((String::from_str("tool_name"), JsonValue::Str(step.name.clone())));
    mcp.push((String::from_str("phase"), JsonValue::Str(String::from_str("intent"))));
    mcp.push((String::from_str("request"), JsonValue::Obj(request)));
    let mut fields: Vec<(String, JsonValue)> = Vec::new();
    fields.push((String::from_str("name"), JsonValue::Str(step.name.clone())));
    fields.push((String::from_str("effect"), JsonValue::Str(step.effect.name_string())));
    fields.push((String::from_str("status"), JsonValue::Str(String::from_str("running"))));
    fields.push((String::from_str("mcp"), JsonValue::Obj(mcp)));
    let r = JsonValue::Obj(fields);
    proof {
        reveal_with_fuel(crate::json::view_json, 5);
        assert(r@->Obj_0[3].1->Obj_0[2].1->Obj_0
            =~= spec_intent_details(step@)->Obj_0[3].1->Obj_0[2].1->Obj_0);
        assert(r@->Obj_0[3].1->Obj_0 =~= spec_intent_details(step@)->Obj_0[3].1->Obj_0);
        assert(r@->Obj_0 =~= spec_intent_details(step@)->Obj_0);
        assert(r@ =~~= spec_intent_details(step@));
    }
    r
}

fn done_details(step: &ActionSchema, out: &JsonValue) -> (r: JsonValue)
    ensures
        r@ == spec_done_details(step@, out@),
{
    let mut mcp: Vec<(String, JsonValue)> = Vec::new();
    mcp.push((String::from_str("tool_name"), JsonValue::Str(step.name.clone())));
    mcp.push((String::from_str("phase"), JsonValue::Str(String::from_str("result"))));
    mcp.push((String::from_str("ok"), JsonValue::Bool(true)));
    mcp.push((String::from_str("output"), out.clone()));
    let mut fields: Vec<(String, JsonValue)> = Vec::new();
    fields.push((String::from_str("name"), JsonValue::Str(step.name.clone())));
    fields.push((String::from_str("effect"), JsonValue::Str(step.effect.name_string())));
    fields.push((String::from_str("status"), JsonValue::Str(String::from_str("done"))));
    fields.push((String::from_str("result"), out.clone()));
    fields.push((String::from_str("mcp"), JsonValue::Obj(mcp)));
    let r = JsonValue::Obj(fields);
    proof {
        reveal_with_fuel(crate::json::view_json, 5);
        assert(r@->Obj_0[4].1->Obj_0 =~= spec_done_details(step@, out@)->Obj_0[4].1->Obj_0);
        assert(r@->Obj_0 =~= spec_done_details(step@, out@)->Obj_0);
        assert(r@ =~~= spec_done_details(step@, out@));
    }
    r
}

fn failed_details(step: &ActionSchema, err: &String) -> (r: JsonValue)
    ensures
        r@ == spec_failed_details(step@, err@),
{
    let mut mcp: Vec<(String, JsonValue)> = Vec::new();
    mcp.push((String::from_str("tool_name"), JsonValue::Str(step.name.clone())));
    mcp.push((String::from_str("phase"), JsonValue::Str(String::from_str("result"))));
    mcp.push((String::from_str("ok"), JsonValue::Bool(false)));
    mcp.push((String::from_str("error"), JsonValue::Str(err.clone())));
    let mut fields: Vec<(String, JsonValue)> = Vec::new();
    fields.push((String::from_str("name"), JsonValue::Str(step.name.clone())));
    fields.push((String::from_str("effect"), JsonValue::Str(step.effect.name_string())));
    fields.push((String::from_str("status"), JsonValue::Str(String::from_str("failed"))));
    fields.push((String::from_str("error"), JsonValue::Str(err.clone())));
    fields.push((String::from_str("mcp"), JsonValue::Obj(mcp)));
    let r = JsonValue::Obj(fields);
    proof {
        reveal_with_fuel(crate::json::view_json, 5);
        assert(r@->Obj_0[4].1->Obj_0 =~= spec_failed_details(step@, err@)->Obj_0[4].1->Obj_0);
        assert(r@->Obj_0 =~= spec_failed_details(step@, err@)->Obj_0);
        assert(r@ =~~= spec_failed_details(step@, err@));
    }
    r
}

/// Run the steps of a plan in order against the tool executor.
///
/// Each step appends its `ActionIntent` event before the tool runs and its
/// `ActionResult` event after; no step starts before the previous step's
/// result is in the log. On the first failure the failed step and the error
/// are returned and nothing more is appended, so steps after the failure
/// leave no trace. On success every step has its intent/result pair, in
/// step order.
pub fn execute_plan<F: Fn(ActionSchema) -> Result<JsonValue, String>>(
    log: &mut EventLog,
    incident_id: &str,
    steps: &Vec<ActionSchema>,
    tool_executor: &F,
    now: &str,
) -> (r: Result<(), (ActionSchema, String)>)
    requires
        old(log).wf(),
        old(log)@.len() + 2 * steps@.len() <= i64::MAX,
        forall|a: ActionSchema| call_requires(*tool_executor, (a,)),
    ensures
        final(log).wf(),
        final(log)@.len() >= old(log)@.len(),
        final(log)@.subrange(0, old(log)@.len() as int) == old(log)@,
        r is Err ==> exists|arg: ActionSchema, emsg: String|
            call_ensures(*tool_executor, (arg,), Err::<JsonValue, String>(emsg)),
        match r {
            Ok(()) => {
                &&& final(log)@.len() == old(log)@.len() + 2 * steps@.len()
                &&& forall|j: int| 0 <= j < steps@.len() ==> spec_is_intent_event(
                    final(log)@[old(log)@.len() + 2 * j],
                    incident_id@,
                    (#[trigger] steps@[j])@,
                    now@,
                )
                &&& forall|j: int| 0 <= j < steps@.len() ==> spec_step_succeeded(
                    final(log)@[old(log)@.len() + 2 * j + 1],
                    incident_id@,
                    (#[trigger] steps@[j])@,
                    now@,
                )
                &&& exists|args: Seq<ActionSchema>, outs: Seq<JsonValue>| spec_results_from_tool(
                    *tool_executor,
                    final(log)@,
                    old(log)@.len() as int,
                    incident_id@,
                    steps.deep_view(),
                    steps@.len() as int,
                    now@,
                    args,
                    outs,
                )
            },
            Err((failed_step, reason)) => exists|k: int| {
                &&& 0 <= k < steps@.len()
                &&& failed_step@ == (#[trigger] steps@[k])@
                &&& final(log)@.len() == old(log)@.len() + 2 * k + 2
                &&& forall|j: int| 0 <= j < k ==> spec_is_intent_event(
                    final(log)@[old(log)@.len() + 2 * j],
                    incident_id@,
                    (#[trigger] steps@[j])@,
                    now@,
                )
                &&& forall|j: int| 0 <= j < k ==> spec_step_succeeded(
                    final(log)@[old(log)@.len() + 2 * j + 1],
                    incident_id@,
                    (#[trigger] steps@[j])@,
                    now@,
                )
                &&& spec_is_intent_event(
                    final(log)@[old(log)@.len() + 2 * k],
                    incident_id@,
                    steps@[k]@,
                    now@,
                )
                &&& spec_is_failed_event(
                    final(log)@[old(log)@.len() + 2 * k + 1],
                    incident_id@,
                    steps@[k]@,
                    reason@,
                    now@,
                )
                &&& exists|arg: ActionSchema| arg@ == steps@[k]@
                    && call_ensures(*tool_executor, (arg,), Err::<JsonValue, String>(reason))
                &&& exists|args: Seq<ActionSchema>, outs: Seq<JsonValue>| spec_results_from_tool(
                    *tool_executor,
                    final(log)@,
                    old(log)@.len() as int,
                    incident_id@,
                    steps.deep_view(),
                    k,
                    now@,
                    args,
                    outs,
                )
            },
        },
{
    let ghost base = old(log)@.len() as int;
    let ghost mut args: Seq<ActionSchema> = Seq::empty();
    let ghost mut outs: Seq<JsonValue> = Seq::empty();
    let mut k: usize = 0;
    while k < steps.len()
        invariant
            log.wf(),
            base == old(log)@.len(),
            base + 2 * steps@.len() <= i64::MAX,
            forall|a: ActionSchema| call_requires(*tool_executor, (a,)),
            k <= steps@.len(),
            log@.len() == base + 2 * k,
            log@.subrange(0, base) == old(log)@,
            spec_results_from_tool(
                *tool_executor,
                log@,
                base,
                incident_id@,
                steps.deep_view(),
                k as int,
                now@,
                args,
                outs,
            ),
            forall|j: int| 0 <= j < k ==> spec_is_intent_event(
                log@[base + 2 * j],
                incident_id@,
                (#[trigger] steps@[j])@,
                now@,
            ),
            forall|j: int| 0 <= j < k ==> spec_step_succeeded(
                log@[base + 2 * j + 1],
                incident_id@,
                (#[trigger] steps@[j])@,
                now@,
            ),
        decreases steps@.len() - k,
    {
        let step = &steps[k];
        let mut description = String::from_str("intent: ");
        description.append(step.name.as_str());
        let intent = Event {
            id: None,
            incident_id: incident_id.to_owned(),
            event_type: EventType::ActionIntent,
            description,
            details: Some(intent_details(step)),
            timestamp: now.to_owned(),
        };
        let ghost before_intent = log@;
        let _ = log.append(&intent);
        proof {
            assert(log@.subrange(0, base) =~= before_intent.subrange(0, base));
            assert(spec_is_intent_event(log@[base + 2 * k], incident_id@, steps@[k as int]@, now@));
        }
        let cloned_step = step.clone();
        let ghost cloned_step_snapshot = cloned_step;
        match tool_executor(cloned_step) {
            Ok(output) => {
                let mut description = String::from_str("action succeeded: ");
                description.append(step.name.as_str());
                let result_event = Event {
                    id: None,
                    incident_id: incident_id.to_owned(),
                    event_type: EventType::ActionResult,
                    description,
                    details: Some(done_details(step, &output)),
                    timestamp: now.to_owned(),
                };
                let ghost before_result = log@;
                let _ = log.append(&result_event);
                proof {
                    assert(log@.subrange(0, base) =~= before_result.subrange(0, base));
                    assert(spec_is_done_event(
                        log@[base + 2 * k + 1],
                        incident_id@,
                        steps@[k as int]@,
                        output@,
                        now@,
                    ));
                    assert(spec_step_succeeded(
                        log@[base + 2 * k + 1],
                        incident_id@,
                        steps@[k as int]@,
                        now@,
                    ));
                    args = args.push(cloned_step_snapshot);
                    outs = outs.push(output);
                    assert(spec_results_from_tool(
                        *tool_executor,
                        log@,
                        base,
                        incident_id@,
                        steps.deep_view(),
                        k + 1 as int,
                        now@,
                        args,
                        outs,
                    ));
                }
            },
            Err(err) => {
                let mut description = String::from_str("action failed: ");
                description.append(step.name.as_str());
                let result_event = Event {
                    id: None,
                    incident_id: incident_id.to_owned(),
                    event_type: EventType::ActionResult,
                    description,
                    details: Some(failed_details(step, &err)),
                    timestamp: now.to_owned(),
                };
                let ghost before_result = log@;
                let _ = log.append(&result_event);
                proof {
                    assert(log@.subrange(0, base) =~= before_result.subrange(0, base));
                    assert(spec_is_failed_event(
                        log@[base + 2 * k + 1],
                        incident_id@,
                        steps@[k as int]@,
                        err@,
                        now@,
                    ));
                }
                proof {
                    assert(call_ensures(*tool_executor, (cloned_step_snapshot,), Err::<JsonValue, String>(err)));
                    assert(exists|a2: Seq<ActionSchema>, o2: Seq<JsonValue>| spec_results_from_tool(
                        *tool_executor,
                        log@,
                        base,
                        incident_id@,
                        steps.deep_view(),
                        k as int,
                        now@,
                        a2,
                        o2,
                    )) by {
                        assert(spec_results_from_tool(
                            *tool_executor,
                            log@,
                            base,
                            incident_id@,
                            steps.deep_view(),
                            k as int,
                            now@,
                            args,
                            outs,
                        ));
                    }
                }
                return Err((step.clone(), err));
            },
        }
        k += 1;
    }
    proof {
        assert(exists|a2: Seq<ActionSchema>, o2: Seq<JsonValue>| spec_results_from_tool(
            *tool_executor,
            log@,
            base,
            incident_id@,
            steps.deep_view(),
            steps@.len() as int,
            now@,
            a2,
            o2,
        )) by {
            assert(spec_results_from_tool(
                *tool_executor,
                log@,
                base,
                incident_id@,
                steps.deep_view(),
                steps@.len() as int,
                now@,
                args,
                outs,
            ));
        }
    }
    Ok(())
}

} // verus!
