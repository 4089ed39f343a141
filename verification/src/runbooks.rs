//! Named actions and runbooks.
//!
//! A runbook is an ordered list of named actions, each tagged with its
//! effect. Two runbooks are built in: one for crash-looping pods and one for
//! out-of-memory kills.

use vstd::prelude::*;
use crate::effects::{Effect, spec_effect_name};
use crate::json::{JsonVal, JsonValue};

verus! {

use vstd::string::StringExecFns;

/// A named action with its effect classification; equality is by name.
#[derive(Debug, PartialEq, Eq)]
pub struct ActionSchema {
    pub name: String,
    pub effect: Effect,
}

/// Mathematical value of an action schema.
pub struct ActionView {
    pub name: Seq<char>,
    pub effect: Effect,
}

impl View for ActionSchema {
    type V = ActionView;

    open spec fn view(&self) -> ActionView {
        ActionView { name: self.name@, effect: self.effect }
    }
}

impl DeepView for ActionSchema {
    type V = ActionView;

    open spec fn deep_view(&self) -> ActionView {
        self@
    }
}

impl Clone for ActionSchema {
    /// Copy with the same mathematical value.
    fn clone(&self) -> (res: Self)
        ensures
            res@ == self@,
    {
        ActionSchema { name: self.name.clone(), effect: self.effect }
    }
}

/// An ordered list of actions.
pub type Runbook = Vec<ActionSchema>;

/// The steps of the built-in crash-loop runbook.
pub open spec fn spec_crashloop_actions() -> Seq<ActionView> {
    seq![
        ActionView { name: "inspect-pod-logs"@, effect: Effect::Observe },
        ActionView { name: "rollback-deployment"@, effect: Effect::Mutate },
    ]
}

/// The steps of the built-in out-of-memory runbook.
pub open spec fn spec_oomkill_actions() -> Seq<ActionView> {
    seq![
        ActionView { name: "inspect-memory-metrics"@, effect: Effect::Observe },
        ActionView { name: "tune-memory-limits"@, effect: Effect::Mutate },
    ]
}

/// The built-in runbook list a reprocess plans against, in declaration
/// order.
pub open spec fn spec_builtin_runbooks() -> Seq<(Seq<char>, Seq<ActionView>)> {
    seq![
        ("crashloop_runbook"@, spec_crashloop_actions()),
        ("oomkill_runbook"@, spec_oomkill_actions()),
    ]
}

/// The JSON document a runbook is recorded as in a `PlanSelected` event:
/// one object per step, with its name and effect.
pub open spec fn spec_runbook_json(steps: Seq<ActionView>) -> JsonVal {
    JsonVal::Arr(
        steps.map_values(
            |a: ActionView| JsonVal::Obj(
                seq![("name"@, JsonVal::Str(a.name)), ("effect"@, JsonVal::Str(spec_effect_name(a.effect)))],
            ),
        ),
    )
}

/// Encode a runbook as the document a `PlanSelected` event records.
pub fn runbook_json(steps: &Vec<ActionSchema>) -> (r: JsonValue)
    ensures
        r@ == spec_runbook_json(steps.deep_view()),
{
    let mut items: Vec<JsonValue> = Vec::new();
    let mut i: usize = 0;
    while i < steps.len()
        invariant
            i <= steps@.len(),
            items@.len() == i,
            forall|j: int| 0 <= j < i ==> (#[trigger] items@[j])@ == JsonVal::Obj(
                seq![
                    ("name"@, JsonVal::Str(steps.deep_view()[j].name)),
                    ("effect"@, JsonVal::Str(spec_effect_name(steps.deep_view()[j].effect))),
                ],
            ),
        decreases steps@.len() - i,
    {
        let step = &steps[i];
        let mut fields: Vec<(String, JsonValue)> = Vec::new();
        fields.push((String::from_str("name"), JsonValue::Str(step.name.clone())));
        fields.push((String::from_str("effect"), JsonValue::Str(step.effect.name_string())));
        let item = JsonValue::Obj(fields);
        proof {
            reveal_with_fuel(crate::json::view_json, 3);
            assert(item@->Obj_0 =~= seq![
                ("name"@, JsonVal::Str(steps.deep_view()[i as int].name)),
                ("effect"@, JsonVal::Str(spec_effect_name(steps.deep_view()[i as int].effect))),
            ]);
        }
        items.push(item);
        i += 1;
    }
    let r = JsonValue::Arr(items);
    proof {
        assert(r@->Arr_0 =~= spec_runbook_json(steps.deep_view())->Arr_0);
        assert(r@ =~~= spec_runbook_json(steps.deep_view()));
    }
    r
}

/// The built-in crash-loop runbook: inspect the pod logs, then roll the
/// deployment back.
pub fn crashloop_runbook() -> (r: Runbook)
    ensures
        r.deep_view() =~= spec_crashloop_actions(),
{
    let mut r: Vec<ActionSchema> = Vec::new();
    r.push(ActionSchema { name: String::from_str("inspect-pod-logs"), effect: Effect::Observe });
    r.push(ActionSchema { name: String::from_str("rollback-deployment"), effect: Effect::Mutate });
    r
}

/// The built-in out-of-memory runbook: inspect memory metrics, then tune the
/// memory limits.
pub fn oomkill_runbook() -> (r: Runbook)
    ensures
        r.deep_view() =~= spec_oomkill_actions(),
{
    let mut r: Vec<ActionSchema> = Vec::new();
    r.push(ActionSchema { name: String::from_str("inspect-memory-metrics"), effect: Effect::Observe });
    r.push(ActionSchema { name: String::from_str("tune-memory-limits"), effect: Effect::Mutate });
    r
}

} // verus!
