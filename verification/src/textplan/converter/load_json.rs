//! Load a JSON Substrait plan.

use vstd::prelude::*;

use crate::proto::{is_json_load, load_plan_from_json};
use crate::textplan::common::error::TextPlanError;

verus! {

/// Loads a JSON Substrait plan from a string and converts it to a Plan protobuf.
pub fn load_plan_from_json_str(json_str: &str) -> (r: Result<substrait::proto::Plan, TextPlanError>)
    ensures
        is_json_load(r, json_str@),
{
    load_plan_from_json(json_str)
}

} // verus!
