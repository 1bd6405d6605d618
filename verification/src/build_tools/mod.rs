//! Rules of the code generator that accompanies the library.

pub mod name_order;
pub mod visitor_generator;
