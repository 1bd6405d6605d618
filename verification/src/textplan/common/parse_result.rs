//! The parse_result module provides a way to track the results of parsing a textplan.

use vstd::prelude::*;

use crate::textplan::common::text_format::{decimal, usize_to_string};
use crate::textplan::common::text_ops::{copy_texts, extend_texts, texts_view};
use crate::textplan::symbol_table::{SymbolInfoView, SymbolTable};

verus! {

/// Represents the result of parsing a textplan.
///
/// This contains the symbol table, any syntax errors, and any semantic errors.
#[derive(Debug)]
pub struct ParseResult {
    symbol_table: SymbolTable,
    syntax_errors: Vec<String>,
    semantic_errors: Vec<String>,
}

/// The lines that list the errors of a failed parse, each indented by two spaces.
pub open spec fn error_lines(errors: Seq<Seq<char>>) -> Seq<char>
    decreases errors.len(),
{
    if errors.len() == 0 {
        Seq::empty()
    } else {
        error_lines(errors.drop_last()) + seq![' ', ' '] + errors.last() + seq!['\n']
    }
}

/// The display text of a parse result with these errors.
pub open spec fn parse_result_text(errors: Seq<Seq<char>>) -> Seq<char> {
    if errors.len() == 0 {
        "Successful parse"@
    } else {
        "Parse failed with "@ + decimal(errors.len()) + " errors:\n"@ + error_lines(errors)
    }
}

impl ParseResult {
    /// The symbols found by the parse.
    pub closed spec fn spec_symbols(&self) -> Seq<SymbolInfoView> {
        self.symbol_table@
    }

    /// The syntax errors.
    pub closed spec fn spec_syntax_errors(&self) -> Seq<Seq<char>> {
        texts_view(self.syntax_errors@)
    }

    /// The semantic errors.
    pub closed spec fn spec_semantic_errors(&self) -> Seq<Seq<char>> {
        texts_view(self.semantic_errors@)
    }

    /// All errors: the syntax errors followed by the semantic errors.
    pub open spec fn spec_all_errors(&self) -> Seq<Seq<char>> {
        self.spec_syntax_errors() + self.spec_semantic_errors()
    }

    /// Creates a new ParseResult with the given symbol table and errors.
    pub fn new(
        symbol_table: SymbolTable,
        syntax_errors: Vec<String>,
        semantic_errors: Vec<String>,
    ) -> (r: Self)
        ensures
            r.spec_symbols() == symbol_table@,
            r.spec_syntax_errors() == texts_view(syntax_errors@),
            r.spec_semantic_errors() == texts_view(semantic_errors@),
    {
        ParseResult { symbol_table, syntax_errors, semantic_errors }
    }

    /// Returns true if the parse was successful (no errors).
    pub fn successful(&self) -> (r: bool)
        ensures
            r == (self.spec_syntax_errors().len() == 0 && self.spec_semantic_errors().len()
                == 0),
    {
        self.syntax_errors.len() == 0 && self.semantic_errors.len() == 0
    }

    /// Returns a reference to the symbol table.
    pub fn symbol_table(&self) -> (r: &SymbolTable)
        ensures
            r@ == self.spec_symbols(),
    {
        &self.symbol_table
    }

    /// Returns a reference to the syntax errors.
    pub fn syntax_errors(&self) -> (r: &[String])
        ensures
            texts_view(r@) == self.spec_syntax_errors(),
    {
        self.syntax_errors.as_slice()
    }

    /// Returns a reference to the semantic errors.
    pub fn semantic_errors(&self) -> (r: &[String])
        ensures
            texts_view(r@) == self.spec_semantic_errors(),
    {
        self.semantic_errors.as_slice()
    }

    /// Returns a vector of all errors (syntax and semantic).
    pub fn all_errors(&self) -> (r: Vec<String>)
        ensures
            texts_view(r@) == self.spec_all_errors(),
    {
        let mut errors = copy_texts(self.syntax_errors.as_slice());
        extend_texts(&mut errors, self.semantic_errors.as_slice());
        errors
    }

    /// Adds the given errors to the syntax errors.
    pub fn add_errors(&mut self, errors: &[String])
        ensures
            final(self).spec_syntax_errors() == old(self).spec_syntax_errors() + texts_view(
                errors@,
            ),
            final(self).spec_semantic_errors() == old(self).spec_semantic_errors(),
            final(self).spec_symbols() == old(self).spec_symbols(),
    {
        extend_texts(&mut self.syntax_errors, errors);
    }

    /// The display text: `Successful parse`, or the number of errors and one line for each.
    pub fn to_string(&self) -> (r: String)
        ensures
            r@ == parse_result_text(self.spec_all_errors()),
    {
        if self.successful() {
            return String::from_str("Successful parse");
        }
        let errors = self.all_errors();
        let ghost es = texts_view(errors@);
        let mut r = String::from_str("Parse failed with ");
        let count = usize_to_string(errors.len());
        r.append(count.as_str());
        r.append(" errors:\n");
        proof {
            reveal_strlit("Parse failed with ");
            reveal_strlit(" errors:\n");
        }
        let ghost head = r@;
        assert(head == "Parse failed with "@ + decimal(es.len()) + " errors:\n"@);
        let mut i: usize = 0;
        while i < errors.len()
            invariant
                i <= errors.len(),
                es == texts_view(errors@),
                r@ == head + error_lines(es.take(i as int)),
            decreases errors.len() - i,
        {
            r.append("  ");
            r.append(errors[i].as_str());
            r.append("\n");
            proof {
                reveal_strlit("  ");
                reveal_strlit("\n");
                assert(es.take(i + 1).drop_last() =~= es.take(i as int));
            }
            assert(r@ =~= head + error_lines(es.take(i + 1)));
            i += 1;
        }
        assert(es.take(errors.len() as int) =~= es);
        r
    }
}

} // verus!
