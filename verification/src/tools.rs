//! The built-in tool registry.
//!
//! A stand-in tool executor for demonstration runs: every action succeeds
//! with a small status document, except actions whose lowered name mentions
//! `fail`, which fail with a descriptive message.

use vstd::prelude::*;
use crate::json::{JsonVal, JsonValue};
use crate::runbooks::ActionSchema;
use crate::strutil::{spec_lower, spec_contains, lower_contains};

verus! {

use vstd::string::StringExecFns;

/// The built-in tool executor.
#[derive(Clone, Debug, Default)]
pub struct ToolRegistry;

/// Whether the registry simulates a failure for an action name.
pub open spec fn spec_simulated_failure(name: Seq<char>) -> bool {
    spec_contains(spec_lower(name), "fail"@)
}

/// The document a successful simulated run returns.
pub open spec fn spec_tool_output(name: Seq<char>) -> JsonVal {
    JsonVal::Obj(seq![("status"@, JsonVal::Str("ok"@)), ("action"@, JsonVal::Str(name))])
}

impl ToolRegistry {
    /// Run an action: succeed with a status document unless the lowered
    /// action name contains `fail`, which fails with a message naming the
    /// action.
    pub fn execute(&self, action: ActionSchema) -> (r: Result<JsonValue, String>)
        ensures
            match r {
                Ok(v) => !spec_simulated_failure(action.name@) && v@ == spec_tool_output(action.name@),
                Err(e) => spec_simulated_failure(action.name@)
                    && e@ == "simulated failure for action "@ + action.name@,
            },
    {
        if lower_contains(action.name.as_str(), "fail") {
            let mut msg = String::from_str("simulated failure for action ");
            msg.append(action.name.as_str());
            Err(msg)
        } else {
            let mut fields: Vec<(String, JsonValue)> = Vec::new();
            fields.push((String::from_str("status"), JsonValue::Str(String::from_str("ok"))));
            fields.push((String::from_str("action"), JsonValue::Str(action.name)));
            let out = JsonValue::Obj(fields);
            proof {
                reveal_with_fuel(crate::json::view_json, 3);
                assert(out@->Obj_0 =~= spec_tool_output(out@->Obj_0[1].1->Str_0)->Obj_0);
            }
            Ok(out)
        }
    }
}

} // verus!
