//! The textplan format: common types, the symbol table, parsing, conversion and printing.

pub mod common;
pub mod converter;
pub mod parser;
pub mod printer;
pub mod symbol_table;

pub use symbol_table::{SymbolInfo, SymbolTable};
