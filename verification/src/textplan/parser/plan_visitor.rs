//! Visitor interface for traversing a Substrait plan.
//!
//! This module provides a simplified implementation of the visitor pattern
//! for traversing parsed textplan data.

use vstd::prelude::*;

use crate::textplan::common::location::{BoxedLocation, Location, LocationView};
use crate::textplan::common::text_format::{decimal, push_decimal};
use crate::textplan::common::text_ops::{lowercased, to_lowercase};
use crate::textplan::common::text_scan::text_equals;
use crate::textplan::common::text_words::{
    brace_trimmed,
    semicolons_trimmed,
    slices_view,
    split_whitespace,
    trim_braces,
    trim_end_semicolons,
    words,
};
use crate::textplan::parser::error_listener::{ErrorListener, ParseErrorView};
use crate::textplan::symbol_table::{
    RelationType,
    SubtypeView,
    SymbolInfo,
    SymbolInfoView,
    SymbolSubtype,
    SymbolTable,
    SymbolType,
};

verus! {

/// Simplified representation of a parse node type
#[derive(Debug, Clone, PartialEq)]
pub enum NodeType {
    Plan,
    PlanDetail,
    Relation,
    Schema,
    Source,
    Root,
    ExtensionSpace,
    Function,
    Expression,
    Constant,
    Identifier,
    Other(String),
}

/// The mathematical value of a node type.
pub ghost enum NodeTypeView {
    Plan,
    PlanDetail,
    Relation,
    Schema,
    Source,
    Root,
    ExtensionSpace,
    Function,
    Expression,
    Constant,
    Identifier,
    Other(Seq<char>),
}

impl View for NodeType {
    type V = NodeTypeView;

    open spec fn view(&self) -> NodeTypeView {
        match self {
            NodeType::Plan => NodeTypeView::Plan,
            NodeType::PlanDetail => NodeTypeView::PlanDetail,
            NodeType::Relation => NodeTypeView::Relation,
            NodeType::Schema => NodeTypeView::Schema,
            NodeType::Source => NodeTypeView::Source,
            NodeType::Root => NodeTypeView::Root,
            NodeType::ExtensionSpace => NodeTypeView::ExtensionSpace,
            NodeType::Function => NodeTypeView::Function,
            NodeType::Expression => NodeTypeView::Expression,
            NodeType::Constant => NodeTypeView::Constant,
            NodeType::Identifier => NodeTypeView::Identifier,
            NodeType::Other(s) => NodeTypeView::Other(s@),
        }
    }
}

/// Simplified representation of a parse node
#[derive(Debug)]
pub struct ParseNode {
    /// The type of node
    node_type: NodeType,
    /// The text content of the node
    text: String,
    /// The location in the source text
    location: BoxedLocation,
    /// Any child nodes
    children: Vec<ParseNode>,
}

/// The mathematical value of a parse node.
pub ghost struct ParseNodeView {
    pub node_type: NodeTypeView,
    pub text: Seq<char>,
    pub location: LocationView,
    pub children: Seq<ParseNodeView>,
}

/// The value of a node.
spec fn node_view(n: ParseNode) -> ParseNodeView
    decreases n,
{
    ParseNodeView {
        node_type: n.node_type@,
        text: n.text@,
        location: n.location@,
        children: nodes_view(n.children@),
    }
}

/// The values of a sequence of nodes.
spec fn nodes_view(s: Seq<ParseNode>) -> Seq<ParseNodeView>
    decreases s,
{
    if s.len() == 0 {
        Seq::empty()
    } else {
        nodes_view(s.drop_last()).push(node_view(s.last()))
    }
}

proof fn lemma_nodes_view(s: Seq<ParseNode>)
    ensures
        nodes_view(s).len() == s.len(),
        forall|i: int| 0 <= i < s.len() ==> #[trigger] nodes_view(s)[i] == node_view(s[i]),
    decreases s.len(),
{
    if s.len() > 0 {
        lemma_nodes_view(s.drop_last());
        assert forall|i: int| 0 <= i < s.len() implies #[trigger] nodes_view(s)[i] == node_view(
            s[i],
        ) by {
            if i < s.len() - 1 {
                assert(s.drop_last()[i] == s[i]);
            }
        }
    }
}

impl View for ParseNode {
    type V = ParseNodeView;

    closed spec fn view(&self) -> ParseNodeView {
        node_view(*self)
    }
}

impl ParseNode {
    /// Creates a new parse node
    pub fn new<L: Location>(node_type: NodeType, text: String, location: L) -> (r: Self)
        ensures
            r@ == (ParseNodeView {
                node_type: node_type@,
                text: text@,
                location: location.location_view(),
                children: Seq::empty(),
            }),
    {
        let r = Self { node_type, text, location: location.box_clone(), children: Vec::new() };
        assert(nodes_view(r.children@) =~= Seq::<ParseNodeView>::empty());
        r
    }

    /// Adds a child node
    pub fn add_child(&mut self, child: ParseNode)
        ensures
            final(self)@ == (ParseNodeView {
                children: old(self)@.children.push(child@),
                ..old(self)@
            }),
    {
        self.children.push(child);
        assert(self.children@.drop_last() =~= old(self).children@);
    }

    /// Returns the node type
    pub fn node_type(&self) -> (r: &NodeType)
        ensures
            r@ == self@.node_type,
    {
        &self.node_type
    }

    /// Returns the text content
    pub fn text(&self) -> (r: &str)
        ensures
            r@ == self@.text,
    {
        self.text.as_str()
    }

    /// Returns a reference to the location
    pub fn location(&self) -> (r: &BoxedLocation)
        ensures
            r@ == self@.location,
    {
        &self.location
    }

    /// Returns the children
    pub fn children(&self) -> (r: &[ParseNode])
        ensures
            r@.len() == self@.children.len(),
            forall|i: int| 0 <= i < r@.len() ==> #[trigger] r@[i]@ == self@.children[i],
    {
        proof {
            lemma_nodes_view(self.children@);
        }
        self.children.as_slice()
    }
}

/// Visitor interface for traversing parse nodes
pub trait Visitor {
    /// Visits a parse node, returning the symbol it defines, if any.
    fn visit(&mut self, node: &ParseNode) -> Option<SymbolInfo>;
}

/// The counters and the symbols a symbol-table visitor has built so far.
pub ghost struct VisitState {
    pub symbols: Seq<SymbolInfoView>,
    pub spaces_seen: usize,
    pub functions_seen: usize,
}

/// A counter after one more item (it wraps around at the top of its range).
pub open spec fn next_count(n: usize) -> usize {
    if n == usize::MAX {
        0
    } else {
        (n + 1) as usize
    }
}

/// The first child that is an identifier.
pub open spec fn first_identifier(cs: Seq<ParseNodeView>) -> Option<ParseNodeView>
    decreases cs.len(),
{
    if cs.len() == 0 {
        None
    } else if cs[0].node_type == NodeTypeView::Identifier {
        Some(cs[0])
    } else {
        first_identifier(cs.drop_first())
    }
}

/// The relation type that a lower-cased relation type name stands for.
pub open spec fn relation_type_named(t: Seq<char>) -> RelationType {
    if t == "read"@ {
        RelationType::Read
    } else if t == "project"@ {
        RelationType::Project
    } else if t == "join"@ {
        RelationType::Join
    } else if t == "cross"@ {
        RelationType::Cross
    } else if t == "fetch"@ {
        RelationType::Fetch
    } else if t == "aggregate"@ {
        RelationType::Aggregate
    } else if t == "sort"@ {
        RelationType::Sort
    } else if t == "filter"@ {
        RelationType::Filter
    } else if t == "set"@ {
        RelationType::SetOperation
    } else if t == "hash_join"@ {
        RelationType::HashJoin
    } else if t == "merge_join"@ {
        RelationType::MergeJoin
    } else if t == "exchange"@ {
        RelationType::Exchange
    } else if t == "ddl"@ {
        RelationType::Ddl
    } else if t == "write"@ {
        RelationType::Write
    } else if t == "extension_leaf"@ {
        RelationType::ExtensionLeaf
    } else if t == "extension_single"@ {
        RelationType::ExtensionSingle
    } else if t == "extension_multi"@ {
        RelationType::ExtensionMulti
    } else {
        RelationType::Unknown
    }
}

/// The relation type named by a relation node: its first identifier child, lower-cased.
pub open spec fn relation_type_text(cs: Seq<ParseNodeView>) -> Seq<char> {
    match first_identifier(cs) {
        Some(c) => lowercased(c.text),
        None => "unknown"@,
    }
}

/// The `k`-th whitespace-separated word of `s`, or `default` when there are fewer words.
pub open spec fn nth_word_or(s: Seq<char>, k: int, default: Seq<char>) -> Seq<char> {
    if k < words(s).len() {
        words(s)[k]
    } else {
        default
    }
}

/// A symbol with no subtype.
pub open spec fn plain_symbol(name: Seq<char>, location: LocationView, t: SymbolType) -> SymbolInfoView {
    SymbolInfoView { name, location, symbol_type: t, subtype: None, blob: None }
}

/// The symbol a relation node defines.
pub open spec fn relation_symbol(n: ParseNodeView) -> SymbolInfoView {
    SymbolInfoView {
        name: brace_trimmed(nth_word_or(n.text, 2, "unknown_relation"@)),
        location: n.location,
        symbol_type: SymbolType::Relation,
        subtype: Some(SubtypeView::Relation(relation_type_named(relation_type_text(n.children)))),
        blob: None,
    }
}

/// The symbol a schema node defines.
pub open spec fn schema_symbol(n: ParseNodeView) -> SymbolInfoView {
    plain_symbol(brace_trimmed(nth_word_or(n.text, 1, "unknown_schema"@)), n.location, SymbolType::Schema)
}

/// The symbol a schema column node defines, if its text has a name and a type.
pub open spec fn column_symbol(n: ParseNodeView) -> Option<SymbolInfoView> {
    let parts = words(n.text);
    if parts.len() >= 2 {
        Some(
            SymbolInfoView {
                name: semicolons_trimmed(parts[0]),
                location: n.location,
                symbol_type: SymbolType::SchemaColumn,
                subtype: Some(SubtypeView::Text(semicolons_trimmed(parts[1]))),
                blob: None,
            },
        )
    } else {
        None
    }
}

/// The symbol a source node defines, if its text has a type and a name.
pub open spec fn source_symbol(n: ParseNodeView) -> Option<SymbolInfoView> {
    let parts = words(n.text);
    if parts.len() >= 3 {
        Some(
            SymbolInfoView {
                name: brace_trimmed(parts[2]),
                location: n.location,
                symbol_type: SymbolType::Source,
                subtype: Some(SubtypeView::Text(parts[1])),
                blob: None,
            },
        )
    } else {
        None
    }
}

/// Whether a node is a schema column.
pub open spec fn is_schema_column(n: ParseNodeView) -> bool {
    n.node_type == NodeTypeView::Other("schema_column"@)
}

/// The symbols the schema columns among `cs` define, in order.
pub open spec fn column_symbols(cs: Seq<ParseNodeView>) -> Seq<SymbolInfoView>
    decreases cs.len(),
{
    if cs.len() == 0 {
        Seq::empty()
    } else {
        let rest = column_symbols(cs.drop_last());
        if is_schema_column(cs.last()) {
            match column_symbol(cs.last()) {
                Some(s) => rest.push(s),
                None => rest,
            }
        } else {
            rest
        }
    }
}

/// The state after adding a symbol.
pub open spec fn with_symbol(st: VisitState, s: SymbolInfoView) -> VisitState {
    VisitState { symbols: st.symbols.push(s), ..st }
}

/// What visiting a node does: the state afterwards and the symbol the visit returns.
pub open spec fn visit_spec(n: ParseNodeView, st: VisitState) -> (VisitState, Option<SymbolInfoView>)
    decreases n, 0int,
{
    match n.node_type {
        NodeTypeView::Relation => {
            let s = relation_symbol(n);
            (visit_all_spec(n.children, with_symbol(st, s)), Some(s))
        },
        NodeTypeView::Schema => {
            let s = schema_symbol(n);
            (
                VisitState { symbols: st.symbols.push(s) + column_symbols(n.children), ..st },
                Some(s),
            )
        },
        NodeTypeView::Source => match source_symbol(n) {
            Some(s) => (with_symbol(st, s), Some(s)),
            None => (st, None),
        },
        NodeTypeView::Root => {
            let s = plain_symbol("root"@, n.location, SymbolType::Root);
            (with_symbol(st, s), Some(s))
        },
        NodeTypeView::ExtensionSpace => {
            let k = next_count(st.spaces_seen);
            let s = plain_symbol("space"@ + decimal(k as nat), n.location, SymbolType::ExtensionSpace);
            (
                visit_all_spec(
                    n.children,
                    VisitState { symbols: st.symbols.push(s), spaces_seen: k, ..st },
                ),
                Some(s),
            )
        },
        NodeTypeView::Function => {
            let k = next_count(st.functions_seen);
            let name = match first_identifier(n.children) {
                Some(c) => c.text,
                None => "function"@ + decimal(k as nat),
            };
            let s = plain_symbol(name, n.location, SymbolType::Function);
            (VisitState { symbols: st.symbols.push(s), functions_seen: k, ..st }, Some(s))
        },
        _ => (visit_all_spec(n.children, st), None),
    }
}

/// What visiting a sequence of nodes in order does.
pub open spec fn visit_all_spec(cs: Seq<ParseNodeView>, st: VisitState) -> VisitState
    decreases cs, 1int,
{
    if cs.len() == 0 {
        st
    } else {
        visit_spec(cs.last(), visit_all_spec(cs.drop_last(), st)).0
    }
}

/// Visiting a node only adds symbols: the symbols there were before come first, unchanged.
pub proof fn lemma_visit_keeps_symbols(n: ParseNodeView, st: VisitState)
    ensures
        visit_spec(n, st).0.symbols.len() >= st.symbols.len(),
        visit_spec(n, st).0.symbols.take(st.symbols.len() as int) == st.symbols,
    decreases n, 0int,
{
    match n.node_type {
        NodeTypeView::Relation => {
            let st1 = with_symbol(st, relation_symbol(n));
            lemma_visit_all_keeps_symbols(n.children, st1);
            assert(st1.symbols.take(st.symbols.len() as int) =~= st.symbols);
            assert(visit_spec(n, st).0.symbols.take(st.symbols.len() as int) =~= st1.symbols.take(
                st.symbols.len() as int,
            ));
        },
        NodeTypeView::Schema => {
            let r = visit_spec(n, st).0.symbols;
            assert(r.take(st.symbols.len() as int) =~= st.symbols);
        },
        NodeTypeView::Source => {
            let r = visit_spec(n, st).0.symbols;
            assert(r.take(st.symbols.len() as int) =~= st.symbols);
        },
        NodeTypeView::Root => {
            let r = visit_spec(n, st).0.symbols;
            assert(r.take(st.symbols.len() as int) =~= st.symbols);
        },
        NodeTypeView::ExtensionSpace => {
            let k = next_count(st.spaces_seen);
            let s = plain_symbol("space"@ + decimal(k as nat), n.location, SymbolType::ExtensionSpace);
            let st1 = VisitState { symbols: st.symbols.push(s), spaces_seen: k, ..st };
            lemma_visit_all_keeps_symbols(n.children, st1);
            assert(st1.symbols.take(st.symbols.len() as int) =~= st.symbols);
            assert(visit_spec(n, st).0.symbols.take(st.symbols.len() as int) =~= st1.symbols.take(
                st.symbols.len() as int,
            ));
        },
        NodeTypeView::Function => {
            let r = visit_spec(n, st).0.symbols;
            assert(r.take(st.symbols.len() as int) =~= st.symbols);
        },
        _ => {
            lemma_visit_all_keeps_symbols(n.children, st);
        },
    }
}

/// Visiting nodes in order only adds symbols.
pub proof fn lemma_visit_all_keeps_symbols(cs: Seq<ParseNodeView>, st: VisitState)
    ensures
        visit_all_spec(cs, st).symbols.len() >= st.symbols.len(),
        visit_all_spec(cs, st).symbols.take(st.symbols.len() as int) == st.symbols,
    decreases cs, 1int,
{
    if cs.len() == 0 {
        assert(st.symbols.take(st.symbols.len() as int) =~= st.symbols);
    } else {
        lemma_visit_all_keeps_symbols(cs.drop_last(), st);
        let mid = visit_all_spec(cs.drop_last(), st);
        lemma_visit_keeps_symbols(cs.last(), mid);
        let r = visit_spec(cs.last(), mid).0.symbols;
        assert(r.take(st.symbols.len() as int) =~= r.take(mid.symbols.len() as int).take(
            st.symbols.len() as int,
        ));
    }
}

/// Implementation of a visitor for building a symbol table
pub struct SymbolTableVisitor {
    symbol_table: SymbolTable,
    error_listener: ErrorListener,
    current_relation_scope: Option<SymbolInfo>,
    num_spaces_seen: usize,
    num_functions_seen: usize,
}

impl SymbolTableVisitor {
    /// The symbols built so far and the counters of extension spaces and functions seen.
    pub closed spec fn spec_state(&self) -> VisitState {
        VisitState {
            symbols: self.symbol_table@,
            spaces_seen: self.num_spaces_seen,
            functions_seen: self.num_functions_seen,
        }
    }

    /// The errors reported so far.
    pub closed spec fn spec_errors(&self) -> Seq<ParseErrorView> {
        self.error_listener@
    }

    /// Creates a new SymbolTableVisitor
    pub fn new(symbol_table: SymbolTable, error_listener: ErrorListener) -> (r: Self)
        ensures
            r.spec_state() == (VisitState {
                symbols: symbol_table@,
                spaces_seen: 0,
                functions_seen: 0,
            }),
            r.spec_errors() == error_listener@,
    {
        Self {
            symbol_table,
            error_listener,
            current_relation_scope: None,
            num_spaces_seen: 0,
            num_functions_seen: 0,
        }
    }

    /// Returns a reference to the symbol table
    pub fn symbol_table(&self) -> (r: &SymbolTable)
        ensures
            r@ == self.spec_state().symbols,
    {
        &self.symbol_table
    }

    /// Returns a reference to the error listener
    pub fn error_listener(&self) -> (r: &ErrorListener)
        ensures
            r@ == self.spec_errors(),
    {
        &self.error_listener
    }

    /// Visits the nodes of `children` in order.
    fn visit_children(&mut self, children: &[ParseNode], Ghost(parent): Ghost<&ParseNode>)
        requires
            forall|i: int| 0 <= i < children@.len() ==> decreases_to!(*parent => #[trigger] children@[i]),
        ensures
            final(self).spec_state() == visit_all_spec(
                children@.map_values(|c: ParseNode| c@),
                old(self).spec_state(),
            ),
            final(self).spec_errors() == old(self).spec_errors(),
        decreases *parent, 0int,
    {
        let ghost cs = children@.map_values(|c: ParseNode| c@);
        let mut i: usize = 0;
        assert(cs.take(0) =~= Seq::<ParseNodeView>::empty());
        while i < children.len()
            invariant
                i <= children@.len(),
                cs == children@.map_values(|c: ParseNode| c@),
                self.spec_state() == visit_all_spec(cs.take(i as int), old(self).spec_state()),
                self.spec_errors() == old(self).spec_errors(),
                forall|j: int| 0 <= j < children@.len() ==> decreases_to!(*parent => #[trigger] children@[j]),
            decreases children.len() - i,
        {
            assert(decreases_to!(*parent => children@[i as int]));
            self.visit_node(&children[i]);
            assert(cs.take(i + 1).drop_last() =~= cs.take(i as int));
            i += 1;
        }
        assert(cs.take(children.len() as int) =~= cs);
    }

    /// Visits a node and what it holds.
    fn visit_node(&mut self, node: &ParseNode) -> (r: Option<SymbolInfo>)
        ensures
            final(self).spec_state() == visit_spec(node@, old(self).spec_state()).0,
            r.is_some() == visit_spec(node@, old(self).spec_state()).1.is_some(),
            r.is_some() ==> r.unwrap()@ == visit_spec(node@, old(self).spec_state()).1.unwrap(),
            final(self).spec_errors() == old(self).spec_errors(),
        decreases *node, 2int,
    {
        proof {
            lemma_nodes_view(node.children@);
            assert(node.children@.map_values(|c: ParseNode| c@) =~= node@.children);
        }
        match &node.node_type {
            NodeType::Relation => {
                let symbol = self.handle_relation(node);
                Some(symbol)
            },
            NodeType::Schema => {
                let symbol = self.handle_schema(node);
                Some(symbol)
            },
            NodeType::Source => self.handle_source(node),
            NodeType::Root => Some(self.handle_root(node)),
            NodeType::ExtensionSpace => {
                self.num_spaces_seen = if self.num_spaces_seen == usize::MAX {
                    0
                } else {
                    self.num_spaces_seen + 1
                };
                let mut space_name = String::from_str("space");
                push_decimal(&mut space_name, self.num_spaces_seen as u128);
                proof {
                    reveal_strlit("space");
                }
                let space_symbol = self.symbol_table.define_symbol(
                    space_name,
                    node.location.box_clone(),
                    SymbolType::ExtensionSpace,
                    None,
                    None,
                );
                self.visit_children(node.children.as_slice(), Ghost(node));
                Some(space_symbol)
            },
            NodeType::Function => {
                self.num_functions_seen = if self.num_functions_seen == usize::MAX {
                    0
                } else {
                    self.num_functions_seen + 1
                };
                let function_name = match first_identifier_child(node) {
                    Some(name_node) => name_node.text.clone(),
                    None => {
                        let mut name = String::from_str("function");
                        push_decimal(&mut name, self.num_functions_seen as u128);
                        proof {
                            reveal_strlit("function");
                        }
                        name
                    },
                };
                let function_symbol = self.symbol_table.define_symbol(
                    function_name,
                    node.location.box_clone(),
                    SymbolType::Function,
                    None,
                    None,
                );
                Some(function_symbol)
            },
            _ => {
                self.visit_children(node.children.as_slice(), Ghost(node));
                None
            },
        }
    }

    /// Handles a relation node
    fn handle_relation(&mut self, node: &ParseNode) -> (r: SymbolInfo)
        requires
            node@.node_type == NodeTypeView::Relation,
        ensures
            final(self).spec_state() == visit_spec(node@, old(self).spec_state()).0,
            r@ == relation_symbol(node@),
            final(self).spec_errors() == old(self).spec_errors(),
        decreases *node, 1int,
    {
        proof {
            lemma_nodes_view(node.children@);
            assert(node.children@.map_values(|c: ParseNode| c@) =~= node@.children);
        }
        let relation_type = self.extract_relation_type(node);
        let relation_subtype = relation_type_from_name(relation_type.as_str());
        let relation_name = self.extract_relation_name(node);
        let symbol = self.symbol_table.define_symbol(
            relation_name,
            node.location.box_clone(),
            SymbolType::Relation,
            Some(SymbolSubtype::Relation(relation_subtype)),
            None,
        );
        self.current_relation_scope = Some(symbol.duplicate());
        self.visit_children(node.children.as_slice(), Ghost(node));
        self.current_relation_scope = None;
        symbol
    }

    /// Extracts the relation type from a relation node
    fn extract_relation_type(&self, node: &ParseNode) -> (r: String)
        ensures
            r@ == relation_type_text(node@.children),
    {
        match first_identifier_child(node) {
            Some(child) => to_lowercase(child.text.as_str()),
            None => {
                proof {
                    reveal_strlit("unknown");
                }
                String::from_str("unknown")
            },
        }
    }

    /// Extracts the relation name from a relation node
    fn extract_relation_name(&self, node: &ParseNode) -> (r: String)
        ensures
            r@ == brace_trimmed(nth_word_or(node@.text, 2, "unknown_relation"@)),
    {
        let parts = split_whitespace(node.text.as_str());
        proof {
            reveal_strlit("unknown_relation");
        }
        let word = if parts.len() > 2 {
            assert(slices_view(parts@)[2] == parts@[2]@);
            parts[2]
        } else {
            "unknown_relation"
        };
        String::from_str(trim_braces(word))
    }

    /// Handles a schema node
    fn handle_schema(&mut self, node: &ParseNode) -> (r: SymbolInfo)
        requires
            node@.node_type == NodeTypeView::Schema,
        ensures
            final(self).spec_state() == visit_spec(node@, old(self).spec_state()).0,
            r@ == schema_symbol(node@),
            final(self).spec_errors() == old(self).spec_errors(),
    {
        let schema_name = self.extract_schema_name(node);
        let symbol = self.symbol_table.define_symbol(
            schema_name,
            node.location.box_clone(),
            SymbolType::Schema,
            None,
            None,
        );
        let ghost start = self.symbol_table@;
        proof {
            lemma_nodes_view(node.children@);
        }
        let ghost cs = node@.children;
        let mut i: usize = 0;
        assert(cs.take(0) =~= Seq::<ParseNodeView>::empty());
        assert(start + column_symbols(cs.take(0)) =~= start);
        while i < node.children.len()
            invariant
                i <= node.children@.len(),
                cs == node@.children,
                cs.len() == node.children@.len(),
                forall|j: int| 0 <= j < cs.len() ==> #[trigger] cs[j] == node.children@[j]@,
                self.symbol_table@ == start + column_symbols(cs.take(i as int)),
                self.num_spaces_seen == old(self).num_spaces_seen,
                self.num_functions_seen == old(self).num_functions_seen,
                self.error_listener@ == old(self).error_listener@,
            decreases node.children.len() - i,
        {
            let child = &node.children[i];
            assert(cs[i as int] == child@);
            assert(cs.take(i + 1).drop_last() =~= cs.take(i as int));
            if is_schema_column_node(child) {
                let _ = self.handle_schema_column(child);
            }
            assert(self.symbol_table@ =~= start + column_symbols(cs.take(i + 1)));
            i += 1;
        }
        assert(cs.take(node.children.len() as int) =~= cs);
        symbol
    }

    /// Extracts the schema name from a schema node
    fn extract_schema_name(&self, node: &ParseNode) -> (r: String)
        ensures
            r@ == brace_trimmed(nth_word_or(node@.text, 1, "unknown_schema"@)),
    {
        let parts = split_whitespace(node.text.as_str());
        proof {
            reveal_strlit("unknown_schema");
        }
        let word = if parts.len() > 1 {
            assert(slices_view(parts@)[1] == parts@[1]@);
            parts[1]
        } else {
            "unknown_schema"
        };
        String::from_str(trim_braces(word))
    }

    /// Handles a schema column node
    fn handle_schema_column(&mut self, node: &ParseNode) -> (r: Option<SymbolInfo>)
        ensures
            column_symbol(node@) matches Some(s) ==> final(self).symbol_table@
                == old(self).symbol_table@.push(s) && r is Some && r.unwrap()@ == s,
            column_symbol(node@) is None ==> final(self).symbol_table@ == old(
                self,
            ).symbol_table@ && r is None,
            final(self).num_spaces_seen == old(self).num_spaces_seen,
            final(self).num_functions_seen == old(self).num_functions_seen,
            final(self).error_listener@ == old(self).error_listener@,
    {
        let parts = split_whitespace(node.text.as_str());
        if parts.len() >= 2 {
            assert(slices_view(parts@)[0] == parts@[0]@);
            assert(slices_view(parts@)[1] == parts@[1]@);
            let column_name = String::from_str(trim_end_semicolons(parts[0]));
            let column_type = String::from_str(trim_end_semicolons(parts[1]));
            let column_symbol = self.symbol_table.define_symbol(
                column_name,
                node.location.box_clone(),
                SymbolType::SchemaColumn,
                Some(SymbolSubtype::Text(column_type)),
                None,
            );
            Some(column_symbol)
        } else {
            None
        }
    }

    /// Handles a source node
    fn handle_source(&mut self, node: &ParseNode) -> (r: Option<SymbolInfo>)
        requires
            node@.node_type == NodeTypeView::Source,
        ensures
            final(self).spec_state() == visit_spec(node@, old(self).spec_state()).0,
            r.is_some() == source_symbol(node@).is_some(),
            r.is_some() ==> r.unwrap()@ == source_symbol(node@).unwrap(),
            final(self).spec_errors() == old(self).spec_errors(),
    {
        let parts = split_whitespace(node.text.as_str());
        if parts.len() >= 3 {
            assert(slices_view(parts@)[1] == parts@[1]@);
            assert(slices_view(parts@)[2] == parts@[2]@);
            let source_type = String::from_str(parts[1]);
            let source_name = String::from_str(trim_braces(parts[2]));
            let source_symbol = self.symbol_table.define_symbol(
                source_name,
                node.location.box_clone(),
                SymbolType::Source,
                Some(SymbolSubtype::Text(source_type)),
                None,
            );
            Some(source_symbol)
        } else {
            None
        }
    }

    /// Handles a root node
    fn handle_root(&mut self, node: &ParseNode) -> (r: SymbolInfo)
        requires
            node@.node_type == NodeTypeView::Root,
        ensures
            final(self).spec_state() == visit_spec(node@, old(self).spec_state()).0,
            r@ == plain_symbol("root"@, node@.location, SymbolType::Root),
            final(self).spec_errors() == old(self).spec_errors(),
    {
        proof {
            reveal_strlit("root");
        }
        self.symbol_table.define_symbol(
            String::from_str("root"),
            node.location.box_clone(),
            SymbolType::Root,
            None,
            None,
        )
    }
}

impl Visitor for SymbolTableVisitor {
    /// Visits a node: a relation, schema, source, root, extension space or function defines
    /// its symbol (and a relation or extension space then visits its children); any other
    /// node visits its children and returns nothing.
    fn visit(&mut self, node: &ParseNode) -> (r: Option<SymbolInfo>)
        ensures
            final(self).spec_state() == visit_spec(node@, old(self).spec_state()).0,
            r.is_some() == visit_spec(node@, old(self).spec_state()).1.is_some(),
            r.is_some() ==> r.unwrap()@ == visit_spec(node@, old(self).spec_state()).1.unwrap(),
            final(self).spec_errors() == old(self).spec_errors(),
    {
        self.visit_node(node)
    }
}

/// The first child of `node` that is an identifier.
fn first_identifier_child(node: &ParseNode) -> (r: Option<&ParseNode>)
    ensures
        r.is_some() == first_identifier(node@.children).is_some(),
        r.is_some() ==> r.unwrap()@ == first_identifier(node@.children).unwrap(),
{
    proof {
        lemma_nodes_view(node.children@);
    }
    let ghost cs = node@.children;
    let mut i: usize = 0;
    assert(cs.skip(0) =~= cs);
    while i < node.children.len()
        invariant
            i <= node.children@.len(),
            cs == node@.children,
            cs.len() == node.children@.len(),
            forall|j: int| 0 <= j < cs.len() ==> #[trigger] cs[j] == node.children@[j]@,
            first_identifier(cs) == first_identifier(cs.skip(i as int)),
        decreases node.children.len() - i,
    {
        let child = &node.children[i];
        assert(cs[i as int] == child@);
        assert(cs.skip(i as int)[0] == child@);
        if let NodeType::Identifier = child.node_type {
            return Some(child);
        }
        assert(cs.skip(i as int).drop_first() =~= cs.skip(i + 1));
        i += 1;
    }
    None
}

/// Whether `node` is a schema column.
fn is_schema_column_node(node: &ParseNode) -> (r: bool)
    ensures
        r == is_schema_column(node@),
{
    proof {
        reveal_strlit("schema_column");
    }
    match &node.node_type {
        NodeType::Other(kind) => text_equals(kind.as_str(), "schema_column"),
        _ => false,
    }
}

/// The relation type that a lower-cased relation type name stands for.
fn relation_type_from_name(t: &str) -> (r: RelationType)
    ensures
        r == relation_type_named(t@),
{
    if text_equals(t, "read") {
        RelationType::Read
    } else if text_equals(t, "project") {
        RelationType::Project
    } else if text_equals(t, "join") {
        RelationType::Join
    } else if text_equals(t, "cross") {
        RelationType::Cross
    } else if text_equals(t, "fetch") {
        RelationType::Fetch
    } else if text_equals(t, "aggregate") {
        RelationType::Aggregate
    } else if text_equals(t, "sort") {
        RelationType::Sort
    } else if text_equals(t, "filter") {
        RelationType::Filter
    } else if text_equals(t, "set") {
        RelationType::SetOperation
    } else if text_equals(t, "hash_join") {
        RelationType::HashJoin
    } else if text_equals(t, "merge_join") {
        RelationType::MergeJoin
    } else if text_equals(t, "exchange") {
        RelationType::Exchange
    } else if text_equals(t, "ddl") {
        RelationType::Ddl
    } else if text_equals(t, "write") {
        RelationType::Write
    } else if text_equals(t, "extension_leaf") {
        RelationType::ExtensionLeaf
    } else if text_equals(t, "extension_single") {
        RelationType::ExtensionSingle
    } else if text_equals(t, "extension_multi") {
        RelationType::ExtensionMulti
    } else {
        RelationType::Unknown
    }
}

} // verus!
