//! Error types for the textplan module.

use vstd::prelude::*;

verus! {

#[verifier::external_type_specification]
#[verifier::external_body]
pub struct ExIoError(std::io::Error);

/// The display text of an I/O error (`format!("{}", e)`).
#[verifier::external_body]
pub(crate) fn io_error_text(e: &std::io::Error) -> String {
    format!("{}", e)
}

/// Errors that can occur when working with textplans.
#[derive(Debug)]
pub enum TextPlanError {
    /// An error that occurred during parsing.
    ParseError(String),
    /// An error that occurred during binary conversion.
    BinaryConversionError(String),
    /// An error that occurred when working with protobuf.
    ProtobufError(String),
    /// An error that occurred when performing I/O.
    IoError(std::io::Error),
    /// An error that occurred when working with the symbol table.
    SymbolTableError(String),
    /// An error that occurred when printing an expression.
    InvalidExpression(String),
}

impl TextPlanError {
    /// The display text of the error: a phrase naming its kind, a colon and its message.
    pub fn to_string(&self) -> (r: String)
        ensures
            self matches TextPlanError::ParseError(m) ==> r@ == "Parse error: "@ + m@,
            self matches TextPlanError::BinaryConversionError(m) ==> r@
                == "Binary conversion error: "@ + m@,
            self matches TextPlanError::ProtobufError(m) ==> r@ == "Protobuf error: "@ + m@,
            self matches TextPlanError::IoError(_) ==> exists|m: Seq<char>|
                r@ == "IO error: "@ + m,
            self matches TextPlanError::SymbolTableError(m) ==> r@ == "Symbol table error: "@
                + m@,
            self matches TextPlanError::InvalidExpression(m) ==> r@ == "Invalid expression: "@
                + m@,
    {
        let (prefix, message) = match self {
            TextPlanError::ParseError(m) => ("Parse error: ", m.clone()),
            TextPlanError::BinaryConversionError(m) => ("Binary conversion error: ", m.clone()),
            TextPlanError::ProtobufError(m) => ("Protobuf error: ", m.clone()),
            TextPlanError::IoError(e) => ("IO error: ", io_error_text(e)),
            TextPlanError::SymbolTableError(m) => ("Symbol table error: ", m.clone()),
            TextPlanError::InvalidExpression(m) => ("Invalid expression: ", m.clone()),
        };
        let mut r = String::from_str(prefix);
        r.append(message.as_str());
        r
    }
}

} // verus!
