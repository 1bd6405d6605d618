//! Printing plans, expressions and types in the textplan format.

pub mod expression_printer;
pub mod literal_printer;
