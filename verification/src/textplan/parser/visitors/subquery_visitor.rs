//! The pass over a parsed textplan that resolves the relations of subqueries.

use vstd::prelude::*;

use crate::textplan::common::text_location::TextLocation;
use crate::textplan::parser::error_listener::{ErrorListener, ParseErrorView};
use crate::textplan::parser::visitors::PlanVisitor;
use crate::textplan::symbol_table::{
    symbol_as_ref,
    symbol_ref_view_opt,
    symbol_view_opt,
    SymbolInfo,
    SymbolInfoView,
    SymbolTable,
};

verus! {

/// The pass that resolves the relations of subqueries and their references to the
/// enclosing query.
pub struct SubqueryRelationVisitor {
    symbol_table: SymbolTable,
    error_listener: ErrorListener,
    current_relation_scope: Option<SymbolInfo>,
}

impl SubqueryRelationVisitor {
    /// The symbols of the visitor's table.
    pub closed spec fn spec_symbols(&self) -> Seq<SymbolInfoView> {
        self.symbol_table@
    }

    /// The errors reported so far.
    pub closed spec fn spec_errors(&self) -> Seq<ParseErrorView> {
        self.error_listener@
    }

    /// The relation being processed, if any.
    pub closed spec fn spec_relation_scope(&self) -> Option<SymbolInfoView> {
        symbol_view_opt(self.current_relation_scope)
    }

    /// Creates a new SubqueryRelationVisitor.
    pub fn new(symbol_table: SymbolTable, error_listener: ErrorListener) -> (r: Self)
        ensures
            r.spec_symbols() == symbol_table@,
            r.spec_errors() == error_listener@,
            r.spec_relation_scope() is None,
    {
        Self { symbol_table, error_listener, current_relation_scope: None }
    }

    /// Gets a copy of the symbol table.
    pub fn symbol_table(&self) -> (r: SymbolTable)
        ensures
            r@ == self.spec_symbols(),
    {
        self.symbol_table.duplicate()
    }

    /// Gets the error listener.
    pub fn error_listener(&self) -> (r: &ErrorListener)
        ensures
            r@ == self.spec_errors(),
    {
        &self.error_listener
    }

    /// Gets the current relation scope, if any.
    pub fn current_relation_scope(&self) -> (r: Option<&SymbolInfo>)
        ensures
            symbol_ref_view_opt(r) == self.spec_relation_scope(),
    {
        symbol_as_ref(&self.current_relation_scope)
    }

    /// Sets the current relation scope.
    pub fn set_current_relation_scope(&mut self, scope: Option<SymbolInfo>)
        ensures
            final(self).spec_relation_scope() == symbol_view_opt(scope),
            final(self).spec_symbols() == old(self).spec_symbols(),
            final(self).spec_errors() == old(self).spec_errors(),
    {
        self.current_relation_scope = scope;
    }

    /// Adds an error message, at the location of the token it is about.
    pub fn add_error(&mut self, location: TextLocation, message: &str)
        ensures
            final(self).spec_errors() == old(self).spec_errors().push(
                ParseErrorView { message: message@, location },
            ),
            final(self).spec_symbols() == old(self).spec_symbols(),
    {
        self.error_listener.add_error(String::from_str(message), location);
    }
}

impl PlanVisitor for SubqueryRelationVisitor {
    fn error_listener(&self) -> (r: &ErrorListener)
        ensures
            r@ == self.spec_errors(),
    {
        &self.error_listener
    }

    fn symbol_table(&self) -> (r: SymbolTable)
        ensures
            r@ == self.spec_symbols(),
    {
        self.symbol_table.duplicate()
    }
}

} // verus!
