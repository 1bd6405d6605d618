//! Save a Substrait plan to JSON format.

use vstd::prelude::*;

use crate::proto::{is_json_save, save_plan_to_json};
use crate::textplan::common::error::TextPlanError;

verus! {

/// Saves a Substrait plan to JSON format.
pub fn save_to_json(plan: &substrait::proto::Plan) -> (r: Result<String, TextPlanError>)
    ensures
        is_json_save(r, *plan),
{
    save_plan_to_json(plan)
}

} // verus!
