//! The pass over a parsed textplan that connects relations into pipelines.

use vstd::prelude::*;

use crate::proto::{Relation, RelType};
use crate::textplan::common::location::{BoxedLocation, LocationView};
use crate::textplan::common::structured_symbol_data::RelationData;
use crate::textplan::common::text_location::TextLocation;
use crate::textplan::common::text_scan::text_equals;
use crate::textplan::parser::error_listener::{ErrorListener, ParseErrorView};
use crate::textplan::parser::visitors::PlanVisitor;
use crate::textplan::symbol_table::{
    keeps_symbols,
    name_index,
    with_blob,
    BlobView,
    RelationType,
    SubtypeView,
    SymbolBlob,
    SymbolInfoView,
    SymbolSubtype,
    SymbolTable,
    SymbolType,
};

verus! {

/// A pipeline (`pipeline`): the text of the first id of its relation reference, where it
/// has one, the location where it starts, and the pipeline nested in it, which feeds it.
#[derive(Debug)]
pub struct PipelineNode {
    pub name: Option<String>,
    pub start: TextLocation,
    pub nested: Option<Box<PipelineNode>>,
}

/// The symbol made for a relation that a pipeline names but nothing defined: a relation of
/// unknown kind, connected to nothing.
pub open spec fn stub_relation_symbol(name: Seq<char>, start: TextLocation) -> SymbolInfoView {
    SymbolInfoView {
        name,
        location: LocationView::Text(start),
        symbol_type: SymbolType::Relation,
        subtype: Some(SubtypeView::Relation(RelationType::Unknown)),
        blob: Some(
            BlobView::Relation {
                pipeline_start: None,
                continuing_pipeline: None,
                new_pipelines: Seq::empty(),
                field_references: Seq::empty(),
                generated_field_references: Seq::empty(),
                output_field_references: Seq::empty(),
                relation: Relation { rel_type: None },
                root_names: Seq::empty(),
            },
        ),
    }
}

/// The symbols after making sure one is named `name`: unchanged where one is, else with a
/// stub relation added.
pub open spec fn with_relation_symbol(symbols: Seq<SymbolInfoView>, name: Seq<char>, start: TextLocation) -> Seq<
    SymbolInfoView,
> {
    if name_index(symbols, name) is Some {
        symbols
    } else {
        symbols.push(stub_relation_symbol(name, start))
    }
}

/// Whether a relation takes what feeds it as the start of a new pipeline (a root named
/// "root", a binary relation or an extension leaf) rather than as its one continuing input.
pub open spec fn takes_new_pipeline(name: Seq<char>, relation: Relation) -> bool {
    name == "root"@ || match relation.rel_type {
        Some(RelType::Join) => true,
        Some(RelType::Cross) => true,
        Some(RelType::SetOperation) => true,
        Some(RelType::HashJoin) => true,
        Some(RelType::MergeJoin) => true,
        Some(RelType::ExtensionLeaf) => true,
        _ => false,
    }
}

/// Where the pipeline of the relation at `k` starts: at itself where no pipeline continues
/// from it or nothing feeds it; else where the pipeline of what feeds it starts, or at that
/// feeding relation itself where that is not recorded (at itself where the feeding symbol is
/// not a relation).
pub open spec fn pipeline_start_of(symbols: Seq<SymbolInfoView>, k: int, left: Option<int>, right: Option<int>) -> usize {
    if right is None {
        k as usize
    } else {
        match left {
            Some(l) => match symbols[l].blob {
                Some(BlobView::Relation { pipeline_start, .. }) => match pipeline_start {
                    Some(p) => p,
                    None => l as usize,
                },
                _ => k as usize,
            },
            None => k as usize,
        }
    }
}

/// The symbols after connecting the relation of a pipeline (named `name`, at `k`) to what
/// feeds it (`left`) and what it feeds (`right`): a relation already continuing into another
/// pipeline, or a symbol that is no relation, is left as it is; else its pipeline start is
/// set, and what feeds it becomes a new pipeline or its continuing input.
pub open spec fn connected(
    symbols: Seq<SymbolInfoView>,
    k: int,
    name: Seq<char>,
    left: Option<int>,
    right: Option<int>,
) -> Seq<SymbolInfoView> {
    match symbols[k].blob {
        Some(BlobView::Relation { pipeline_start, continuing_pipeline, new_pipelines, field_references, generated_field_references, output_field_references, relation, root_names }) => {
            if continuing_pipeline is Some {
                symbols
            } else {
                let start = Some(pipeline_start_of(symbols, k, left, right));
                let blob = match left {
                    Some(l) => if takes_new_pipeline(name, relation) {
                        BlobView::Relation {
                            pipeline_start: start,
                            continuing_pipeline,
                            new_pipelines: new_pipelines.push(l as usize),
                            field_references,
                            generated_field_references,
                            output_field_references,
                            relation,
                            root_names,
                        }
                    } else {
                        BlobView::Relation {
                            pipeline_start: start,
                            continuing_pipeline: Some(l as usize),
                            new_pipelines,
                            field_references,
                            generated_field_references,
                            output_field_references,
                            relation,
                            root_names,
                        }
                    },
                    None => BlobView::Relation {
                        pipeline_start: start,
                        continuing_pipeline,
                        new_pipelines,
                        field_references,
                        generated_field_references,
                        output_field_references,
                        relation,
                        root_names,
                    },
                };
                symbols.update(k, with_blob(symbols[k], Some(blob)))
            }
        },
        _ => symbols,
    }
}

/// The name of the relation a pipeline refers to, where it has one.
pub open spec fn pipeline_name(p: Option<Box<PipelineNode>>) -> Option<Seq<char>> {
    match p {
        Some(b) => match b.name {
            Some(n) => Some(n@),
            None => None,
        },
        None => None,
    }
}

/// The position of the first symbol with a name, where there is a name and such a symbol.
pub open spec fn found(symbols: Seq<SymbolInfoView>, name: Option<Seq<char>>) -> Option<int> {
    match name {
        Some(n) => name_index(symbols, n),
        None => None,
    }
}

/// The symbols after visiting a pipeline fed into the pipeline of the relation named
/// `parent` (none for a top-level pipeline): its relation's symbol is made sure of, the
/// nested pipeline is visited, and then the relation is connected to the relation of the
/// nested pipeline and to the parent's. A pipeline without a name changes nothing.
pub open spec fn after_pipeline(symbols: Seq<SymbolInfoView>, p: PipelineNode, parent: Option<Seq<char>>) -> Seq<
    SymbolInfoView,
>
    decreases p,
{
    match p.name {
        None => symbols,
        Some(n) => {
            let s1 = with_relation_symbol(symbols, n@, p.start);
            let k = name_index(s1, n@).unwrap();
            let s2 = match p.nested {
                Some(b) => after_pipeline(s1, *b, Some(n@)),
                None => s1,
            };
            connected(s2, k, n@, found(s2, pipeline_name(p.nested)), found(s2, parent))
        },
    }
}

/// The pass that connects the relations of a plan into pipelines.
pub struct PipelineVisitor {
    symbol_table: SymbolTable,
    error_listener: ErrorListener,
}

impl PipelineVisitor {
    /// The symbols of the visitor's table.
    pub closed spec fn spec_symbols(&self) -> Seq<SymbolInfoView> {
        self.symbol_table@
    }

    /// The errors reported so far.
    pub closed spec fn spec_errors(&self) -> Seq<ParseErrorView> {
        self.error_listener@
    }

    /// Creates a new PipelineVisitor.
    pub fn new(symbol_table: SymbolTable, error_listener: ErrorListener) -> (r: Self)
        ensures
            r.spec_symbols() == symbol_table@,
            r.spec_errors() == error_listener@,
    {
        Self { symbol_table, error_listener }
    }

    /// Gets a copy of the symbol table.
    pub fn symbol_table(&self) -> (r: SymbolTable)
        ensures
            r@ == self.spec_symbols(),
    {
        self.symbol_table.duplicate()
    }

    /// Gets the error listener.
    pub fn error_listener(&self) -> (r: &ErrorListener)
        ensures
            r@ == self.spec_errors(),
    {
        &self.error_listener
    }

    /// Makes sure a symbol is named `name`, adding a stub relation (see
    /// `stub_relation_symbol`) where none is, and gives the position of the first such symbol.
    fn update_relation_symbol(&mut self, name: &str, start: TextLocation) -> (r: usize)
        ensures
            final(self).spec_symbols() == with_relation_symbol(old(self).spec_symbols(), name@, start),
            name_index(final(self).spec_symbols(), name@) == Some(r as int),
            r < final(self).spec_symbols().len(),
            final(self).spec_errors() == old(self).spec_errors(),
    {
        match self.symbol_table.index_of_name(name) {
            Some(k) => {
                proof {
                    lemma_name_index_bound(old(self).spec_symbols(), name@);
                }
                k
            },
            None => {
                let data = RelationData::new(Relation { rel_type: None });
                assert(data.new_pipelines@ =~= Seq::<usize>::empty());
                assert(crate::textplan::common::text_ops::texts_view(data.root_names@) =~= Seq::<Seq<char>>::empty());
                let blob = Some(SymbolBlob::Relation(data));
                let symbol = self.symbol_table.define_symbol(
                    String::from_str(name),
                    BoxedLocation::Text(start),
                    SymbolType::Relation,
                    Some(SymbolSubtype::Relation(RelationType::Unknown)),
                    blob,
                );
                assert(symbol@ == stub_relation_symbol(name@, start));
                let ghost s = self.spec_symbols();
                assert(s.drop_last() =~= old(self).spec_symbols());
                self.symbol_table.len() - 1
            },
        }
    }

    /// Visits a pipeline fed into the pipeline of the relation named `parent` (none for a
    /// top-level pipeline); see `after_pipeline`.
    pub fn visit_pipeline(&mut self, ctx: &PipelineNode, parent: Option<&str>)
        ensures
            final(self).spec_symbols() == after_pipeline(old(self).spec_symbols(), *ctx, match parent {
                Some(t) => Some(t@),
                None => None,
            }),
            final(self).spec_symbols().len() >= old(self).spec_symbols().len(),
            final(self).spec_errors() == old(self).spec_errors(),
        decreases ctx,
    {
        let name = match &ctx.name {
            Some(n) => n.as_str(),
            None => return,
        };
        let k = self.update_relation_symbol(name, ctx.start);
        match &ctx.nested {
            Some(b) => self.visit_pipeline(b, Some(name)),
            None => {},
        }
        let left: Option<usize> = match &ctx.nested {
            Some(b) => match &b.name {
                Some(m) => self.symbol_table.index_of_name(m.as_str()),
                None => None,
            },
            None => None,
        };
        let right: Option<usize> = match parent {
            Some(t) => self.symbol_table.index_of_name(t),
            None => None,
        };
        proof {
            lemma_name_index_bound_opt(self.spec_symbols(), pipeline_name(ctx.nested));
            lemma_name_index_bound_opt(self.spec_symbols(), match parent {
                Some(t) => Some(t@),
                None => None,
            });
        }
        self.connect(k, name, left, right);
    }

    /// Visits the top-level pipelines of a plan, in order.
    pub fn visit_pipelines(&mut self, pipelines: &[PipelineNode])
        ensures
            final(self).spec_symbols() == after_pipelines(old(self).spec_symbols(), pipelines@),
            final(self).spec_errors() == old(self).spec_errors(),
    {
        let mut i: usize = 0;
        while i < pipelines.len()
            invariant
                i <= pipelines.len(),
                self.spec_symbols() == after_pipelines(old(self).spec_symbols(), pipelines@.take(i as int)),
                self.spec_errors() == old(self).spec_errors(),
            decreases pipelines.len() - i,
        {
            assert(pipelines@.take(i as int + 1).drop_last() =~= pipelines@.take(i as int));
            self.visit_pipeline(&pipelines[i], None);
            i += 1;
        }
        assert(pipelines@.take(i as int) =~= pipelines@);
    }

    /// Connects the relation at `k` to what feeds it and what it feeds (see `connected`).
    fn connect(&mut self, k: usize, name: &str, left: Option<usize>, right: Option<usize>)
        requires
            k < old(self).spec_symbols().len(),
            left matches Some(l) ==> l < old(self).spec_symbols().len(),
        ensures
            final(self).spec_symbols() == connected(
                old(self).spec_symbols(),
                k as int,
                name@,
                match left {
                    Some(l) => Some(l as int),
                    None => None,
                },
                match right {
                    Some(r) => Some(r as int),
                    None => None,
                },
            ),
            final(self).spec_errors() == old(self).spec_errors(),
    {
        let symbols = self.symbol_table.symbols();
        assert(symbols@[k as int]@ == self.spec_symbols()[k as int]);
        let data = match symbols[k].blob() {
            Some(SymbolBlob::Relation(d)) => d,
            _ => return,
        };
        if data.continuing_pipeline.is_some() {
            return;
        }
        let start: usize = if right.is_none() {
            k
        } else {
            match left {
                Some(l) => {
                    assert(symbols@[l as int]@ == self.spec_symbols()[l as int]);
                    match symbols[l].blob() {
                        Some(SymbolBlob::Relation(ld)) => match ld.pipeline_start {
                            Some(p) => p,
                            None => l,
                        },
                        _ => k,
                    }
                },
                None => k,
            }
        };
        let mut updated = data.duplicate();
        updated.pipeline_start = Some(start);
        match left {
            Some(l) => {
                let new_branch = text_equals(name, "root") || match data.relation.rel_type {
                    Some(RelType::Join) => true,
                    Some(RelType::Cross) => true,
                    Some(RelType::SetOperation) => true,
                    Some(RelType::HashJoin) => true,
                    Some(RelType::MergeJoin) => true,
                    Some(RelType::ExtensionLeaf) => true,
                    _ => false,
                };
                if new_branch {
                    updated.new_pipelines.push(l);
                } else {
                    updated.continuing_pipeline = Some(l);
                }
            },
            None => {},
        }
        self.symbol_table.set_blob(k, Some(SymbolBlob::Relation(updated)));
    }

    /// Adds an error message, at the location of the token it is about.
    pub fn add_error(&mut self, location: TextLocation, message: &str)
        ensures
            final(self).spec_errors() == old(self).spec_errors().push(
                ParseErrorView { message: message@, location },
            ),
            final(self).spec_symbols() == old(self).spec_symbols(),
    {
        self.error_listener.add_error(String::from_str(message), location);
    }
}

/// The symbols after visiting top-level pipelines in order.
pub open spec fn after_pipelines(symbols: Seq<SymbolInfoView>, ps: Seq<PipelineNode>) -> Seq<SymbolInfoView>
    decreases ps.len(),
{
    if ps.len() == 0 {
        symbols
    } else {
        after_pipeline(after_pipelines(symbols, ps.drop_last()), ps.last(), None)
    }
}

/// Visiting a pipeline keeps every symbol in its place with its name, kind, location and
/// subtype: it changes only the data of relations and adds stubs for undefined relations.
pub proof fn lemma_pipeline_keeps_symbols(symbols: Seq<SymbolInfoView>, p: PipelineNode, parent: Option<Seq<char>>)
    ensures
        keeps_symbols(symbols, after_pipeline(symbols, p, parent)),
    decreases p,
{
    match p.name {
        None => {
            assert(after_pipeline(symbols, p, parent) == symbols);
            assert(keeps_symbols(symbols, symbols));
        },
        Some(n) => {
            let s1 = with_relation_symbol(symbols, n@, p.start);
            let s2 = match p.nested {
                Some(b) => after_pipeline(s1, *b, Some(n@)),
                None => s1,
            };
            if let Some(b) = p.nested {
                lemma_pipeline_keeps_symbols(s1, *b, Some(n@));
            }
            assert(keeps_symbols(symbols, s2));
            lemma_name_index_bound(s1, n@);
            let k = name_index(s1, n@).unwrap();
            let after = connected(s2, k, n@, found(s2, pipeline_name(p.nested)), found(s2, parent));
            assert(after == after_pipeline(symbols, p, parent));
            assert(keeps_symbols(s2, after));
            assert forall|i: int| 0 <= i < symbols.len() implies {
                &&& #[trigger] after[i].name == symbols[i].name
                &&& after[i].symbol_type == symbols[i].symbol_type
                &&& after[i].location == symbols[i].location
                &&& after[i].subtype == symbols[i].subtype
            } by {
                assert(after[i].name == s2[i].name);
                assert(s2[i].name == symbols[i].name);
            }
        },
    }
}

/// The first position of a name is a position of the list.
proof fn lemma_name_index_bound(symbols: Seq<SymbolInfoView>, name: Seq<char>)
    ensures
        name_index(symbols, name) matches Some(i) ==> 0 <= i < symbols.len(),
    decreases symbols.len(),
{
    if symbols.len() > 0 {
        lemma_name_index_bound(symbols.drop_last(), name);
    }
}

/// The position found for an optional name is a position of the list.
proof fn lemma_name_index_bound_opt(symbols: Seq<SymbolInfoView>, name: Option<Seq<char>>)
    ensures
        found(symbols, name) matches Some(i) ==> 0 <= i < symbols.len(),
{
    if let Some(n) = name {
        lemma_name_index_bound(symbols, n);
    }
}

impl PlanVisitor for PipelineVisitor {
    fn error_listener(&self) -> (r: &ErrorListener)
        ensures
            r@ == self.spec_errors(),
    {
        &self.error_listener
    }

    fn symbol_table(&self) -> (r: SymbolTable)
        ensures
            r@ == self.spec_symbols(),
    {
        self.symbol_table.duplicate()
    }
}

} // verus!
