//! Substrait textplan: reading and writing Substrait plans in their textual form.

pub mod build_tools;
pub mod proto;
pub mod textplan;
