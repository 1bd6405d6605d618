//! Reading textplans.

pub mod error_listener;
pub mod parse_text;
pub mod plan_visitor;
pub mod visitors;
