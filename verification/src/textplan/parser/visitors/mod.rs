//! The passes that build a symbol table from a parsed textplan.

use vstd::prelude::*;

use crate::textplan::common::text_location::TextLocation;
use crate::textplan::parser::error_listener::ErrorListener;
use crate::textplan::symbol_table::SymbolTable;

pub mod main_visitor;
pub mod pipeline_visitor;
pub mod relation_visitor;
pub mod subquery_visitor;
pub mod type_visitor;

pub use main_visitor::MainPlanVisitor;
pub use pipeline_visitor::PipelineVisitor;
pub use relation_visitor::RelationVisitor;
pub use subquery_visitor::SubqueryRelationVisitor;
pub use type_visitor::TypeVisitor;

verus! {

/// The location of a token that starts at `column` of `line` and spans `text_len`
/// characters: its position is `line * 10000 + column`, so that tokens on different lines
/// get different positions.
pub fn token_to_location(line: isize, column: isize, text_len: usize) -> (r: TextLocation)
    requires
        i32::MIN <= (line as i32) * 10000 <= i32::MAX,
        i32::MIN <= (line as i32) * 10000 + (column as i32) <= i32::MAX,
    ensures
        r.spec_position() == (line as i32) * 10000 + (column as i32),
        r.spec_length() == text_len as i32,
{
    let line32 = line as i32;
    let column32 = column as i32;
    let position = line32 * 10000 + column32;
    TextLocation::new(position, text_len as i32)
}

/// `s` without a closing quotation mark and then without an opening one; texts shorter
/// than two characters stay as they are.
pub open spec fn unquoted(s: Seq<char>) -> Seq<char> {
    if s.len() < 2 {
        s
    } else {
        let t = if s.last() == '"' {
            s.drop_last()
        } else {
            s
        };
        if t.len() > 0 && t[0] == '"' {
            t.drop_first()
        } else {
            t
        }
    }
}

/// Helper function to extract string content by removing quotes.
/// Removes leading and trailing quotation marks from a string.
pub fn extract_from_string(s: &str) -> (r: String)
    ensures
        r@ == unquoted(s@),
{
    let n = s.unicode_len();
    if n < 2 {
        return String::from_str(s);
    }
    let end = if s.get_char(n - 1) == '"' {
        n - 1
    } else {
        n
    };
    let start: usize = if end > 0 && s.get_char(0) == '"' {
        1
    } else {
        0
    };
    let r = s.substring_char(start, end);
    assert(r@ =~= unquoted(s@));
    String::from_str(r)
}

/// Extracting the content of a quoted text gives back what was quoted.
pub proof fn lemma_unquoted_quoted(s: Seq<char>)
    ensures
        unquoted(seq!['"'] + s + seq!['"']) == s,
{
    let q = seq!['"'] + s + seq!['"'];
    assert(q.drop_last() =~= seq!['"'] + s);
    assert((seq!['"'] + s).drop_first() =~= s);
}

/// What every pass over a parsed textplan offers: its error listener and its symbol table.
pub trait PlanVisitor {
    /// Gets the error listener for this visitor.
    fn error_listener(&self) -> &ErrorListener;

    /// Gets the symbol table for this visitor.
    fn symbol_table(&self) -> SymbolTable;
}

} // verus!
