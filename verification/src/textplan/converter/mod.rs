//! Converting Substrait plans, in their binary and JSON encodings, to and from textplans.

pub mod initial_plan_visitor;
pub mod load_json;
pub mod pipeline_visitor;
pub mod relation_tree;
pub mod save_binary;
pub mod save_json;
