//! The pass over a Substrait plan that connects its relations into pipelines.

use vstd::prelude::*;

use crate::textplan::common::location::{BoxedLocation, LocationView};
use crate::proto::{PlanRel, PlanRelType, Relation, RelType};
use crate::textplan::common::proto_location::{PathComponentView, ProtoLocation, ProtoLocationView};
use crate::textplan::symbol_table::{
    duplicate_symbol, keeps_symbols, lemma_located_index_bound, lemma_location_index_bound, located_index,
    location_index, symbol_view_opt, with_blob, BlobView, SymbolBlob,
    SymbolInfo, SymbolInfoView, SymbolTable, SymbolType,
};

verus! {

/// The field that holds the one input of a relation of this kind, for the kinds with one.
pub open spec fn single_input_field(t: RelType) -> Option<Seq<char>> {
    match t {
        RelType::Filter => Some("filter"@),
        RelType::Fetch => Some("fetch"@),
        RelType::Aggregate => Some("aggregate"@),
        RelType::Sort => Some("sort"@),
        RelType::Project => Some("project"@),
        RelType::ExtensionSingle => Some("extension_single"@),
        RelType::Write => Some("write"@),
        RelType::Window => Some("window"@),
        RelType::Exchange => Some("exchange"@),
        RelType::Expand => Some("expand"@),
        _ => None,
    }
}

/// The field that holds the left and right inputs of a relation of this kind, for the
/// kinds with two.
pub open spec fn two_input_field(t: RelType) -> Option<Seq<char>> {
    match t {
        RelType::Join => Some("join"@),
        RelType::Cross => Some("cross"@),
        RelType::HashJoin => Some("hash_join"@),
        RelType::MergeJoin => Some("merge_join"@),
        RelType::NestedLoopJoin => Some("nested_loop_join"@),
        _ => None,
    }
}

/// The field that holds the list of inputs of a relation of this kind, for the kinds with
/// such a list.
pub open spec fn many_input_field(t: RelType) -> Option<Seq<char>> {
    match t {
        RelType::SetOperation => Some("set"@),
        RelType::ExtensionMulti => Some("extension_multi"@),
        _ => None,
    }
}

/// Whether textplans cannot hold relations of this kind (references, DDL and updates).
pub open spec fn unsupported_relation(t: RelType) -> bool {
    t == RelType::Reference || t == RelType::Ddl || t == RelType::Update
}

/// The location of field `side` of field `kind` below `loc`.
pub open spec fn child_location(loc: ProtoLocationView, kind: Seq<char>, side: Seq<char>) -> ProtoLocationView {
    ProtoLocationView {
        path: loc.path.push(PathComponentView::Field(kind)).push(PathComponentView::Field(side)),
        ..loc
    }
}

/// The location of input `i` of field `kind` below `loc`.
pub open spec fn input_location(loc: ProtoLocationView, kind: Seq<char>, i: usize) -> ProtoLocationView {
    ProtoLocationView {
        path: loc.path.push(PathComponentView::Field(kind)).push(PathComponentView::IndexedField("inputs"@, i)),
        ..loc
    }
}

/// The position of the first relation symbol defined at a location, if there is one.
pub open spec fn relation_at(symbols: Seq<SymbolInfoView>, loc: ProtoLocationView) -> Option<int> {
    location_index(symbols, LocationView::Proto(loc), SymbolType::Relation)
}

/// The position of the relation at a location, as stored in relation data.
pub open spec fn stored_position(p: Option<int>) -> Option<usize> {
    match p {
        Some(i) => Some(i as usize),
        None => None,
    }
}

/// The positions of the relations at the first `n` input locations of field `kind`.
pub open spec fn input_positions(symbols: Seq<SymbolInfoView>, loc: ProtoLocationView, kind: Seq<char>, n: nat) -> Seq<usize> {
    Seq::new(n, |i: int| relation_at(symbols, input_location(loc, kind, i as usize)).unwrap() as usize)
}

/// Whether the relation at the current location can be linked to its inputs: where it
/// carries relation data, its kind is one textplans hold, and each of its two inputs, or of
/// its `input_count` listed inputs, has a relation symbol.
pub open spec fn links_defined(symbols: Seq<SymbolInfoView>, loc: ProtoLocationView, rel: Relation, input_count: nat) -> bool {
    match relation_at(symbols, loc) {
        Some(k) => match symbols[k].blob {
            Some(BlobView::Relation { .. }) => match rel.rel_type {
                Some(t) => {
                    &&& !unsupported_relation(t)
                    &&& two_input_field(t) matches Some(f) ==> relation_at(symbols, child_location(loc, f, "left"@))
                        is Some && relation_at(symbols, child_location(loc, f, "right"@)) is Some
                    &&& many_input_field(t) matches Some(f) ==> forall|i: int|
                        0 <= i < input_count ==> #[trigger] relation_at(symbols, input_location(loc, f, i as usize)) is Some
                },
                None => true,
            },
            _ => true,
        },
        None => true,
    }
}

/// The symbols after linking the relation at the current location to its inputs: a relation
/// with one input continues into the relation at that input (none where there is none
/// there); one with two inputs, or a list of them, starts a new pipeline from each, in order;
/// other relations, and symbols without relation data, are left as they are.
pub open spec fn linked(symbols: Seq<SymbolInfoView>, loc: ProtoLocationView, rel: Relation, input_count: nat) -> Seq<SymbolInfoView> {
    match relation_at(symbols, loc) {
        Some(k) => match symbols[k].blob {
            Some(BlobView::Relation { pipeline_start, continuing_pipeline, new_pipelines, field_references, generated_field_references, output_field_references, relation, root_names }) => {
                let (cp, np) = match rel.rel_type {
                    Some(t) => if single_input_field(t) is Some {
                        (stored_position(relation_at(symbols, child_location(loc, single_input_field(t)->0, "input"@))), new_pipelines)
                    } else if two_input_field(t) is Some {
                        let f = two_input_field(t)->0;
                        (continuing_pipeline, new_pipelines.push(relation_at(symbols, child_location(loc, f, "left"@)).unwrap() as usize)
                            .push(relation_at(symbols, child_location(loc, f, "right"@)).unwrap() as usize))
                    } else if many_input_field(t) is Some {
                        (continuing_pipeline, new_pipelines + input_positions(symbols, loc, many_input_field(t)->0, input_count))
                    } else {
                        (continuing_pipeline, new_pipelines)
                    },
                    None => (continuing_pipeline, new_pipelines),
                };
                symbols.update(k, with_blob(symbols[k], Some(BlobView::Relation {
                    pipeline_start,
                    continuing_pipeline: cp,
                    new_pipelines: np,
                    field_references,
                    generated_field_references,
                    output_field_references,
                    relation,
                    root_names,
                })))
            },
            _ => symbols,
        },
        None => symbols,
    }
}

/// The location where the relation of a plan relation of this kind stands.
pub open spec fn plan_input_location(loc: ProtoLocationView, t: PlanRelType) -> ProtoLocationView {
    match t {
        PlanRelType::Relation => ProtoLocationView { path: loc.path.push(PathComponentView::Field("rel"@)), ..loc },
        PlanRelType::Root => child_location(loc, "root"@, "input"@),
    }
}

/// Whether the plan relation at a location can be linked to its relation: some symbol is
/// defined there, and where it carries relation data and the plan relation has a kind, a
/// relation symbol stands where its relation is.
pub open spec fn plan_link_defined(symbols: Seq<SymbolInfoView>, loc: ProtoLocationView, p: PlanRel) -> bool {
    match located_index(symbols, LocationView::Proto(loc)) {
        Some(k) => match symbols[k].blob {
            Some(BlobView::Relation { .. }) => match p.rel_type {
                Some(t) => relation_at(symbols, plan_input_location(loc, t)) is Some,
                None => true,
            },
            _ => true,
        },
        None => false,
    }
}

/// The symbols after linking the first symbol at a location, where it carries relation data
/// and the plan relation has a kind, to the relation of the plan relation: a new pipeline
/// starts from that relation.
pub open spec fn plan_linked(symbols: Seq<SymbolInfoView>, loc: ProtoLocationView, p: PlanRel) -> Seq<SymbolInfoView> {
    match located_index(symbols, LocationView::Proto(loc)) {
        Some(k) => match symbols[k].blob {
            Some(BlobView::Relation { pipeline_start, continuing_pipeline, new_pipelines, field_references, generated_field_references, output_field_references, relation, root_names }) => match p.rel_type {
                Some(t) => symbols.update(k, with_blob(symbols[k], Some(BlobView::Relation {
                    pipeline_start,
                    continuing_pipeline,
                    new_pipelines: new_pipelines.push(relation_at(symbols, plan_input_location(loc, t)).unwrap() as usize),
                    field_references,
                    generated_field_references,
                    output_field_references,
                    relation,
                    root_names,
                }))),
                None => symbols,
            },
            _ => symbols,
        },
        None => symbols,
    }
}

/// Linking a relation to its inputs keeps every symbol in its place with its name, kind,
/// location and subtype; it changes only the data of that relation.
pub proof fn lemma_linking_keeps_symbols(symbols: Seq<SymbolInfoView>, loc: ProtoLocationView, rel: Relation, input_count: nat)
    ensures
        keeps_symbols(symbols, linked(symbols, loc, rel, input_count)),
{
    lemma_location_index_bound(symbols, LocationView::Proto(loc), SymbolType::Relation);
}

/// The pass that connects the relations of a plan into pipelines.
pub struct PipelineVisitor {
    /// Symbol table for storing plan element information
    symbol_table: SymbolTable,
    /// Current relation context for scope resolution
    current_relation_scope: Option<SymbolInfo>,
    /// Previous relation scope (saved for restoration)
    previous_relation_scope: Option<SymbolInfo>,
    /// Current location in the protocol buffer structure
    current_location: ProtoLocation,
    /// Flag to prevent infinite recursion when traversing subquery relations
    in_subquery_traversal: bool,
}

impl PipelineVisitor {
    /// The symbols of the visitor's table.
    pub closed spec fn spec_symbols(&self) -> Seq<SymbolInfoView> {
        self.symbol_table@
    }

    /// The relation being processed, if any.
    pub closed spec fn spec_relation_scope(&self) -> Option<SymbolInfoView> {
        symbol_view_opt(self.current_relation_scope)
    }

    /// Where in the plan the visitor stands.
    pub closed spec fn spec_location(&self) -> ProtoLocationView {
        self.current_location@
    }

    /// The relation scope saved when the current relation was entered.
    pub closed spec fn spec_previous_scope(&self) -> Option<SymbolInfoView> {
        symbol_view_opt(self.previous_relation_scope)
    }

    /// Create a new pipeline visitor with the given symbol table
    pub fn new(symbol_table: SymbolTable) -> (r: Self)
        ensures
            r.spec_symbols() == symbol_table@,
            r.spec_relation_scope() is None,
            r.spec_previous_scope() is None,
            r.spec_location().root_instance_id == 0,
            r.spec_location().path.len() == 0,
    {
        Self {
            symbol_table,
            current_relation_scope: None,
            previous_relation_scope: None,
            current_location: ProtoLocation::unknown(),
            in_subquery_traversal: false,
        }
    }

    /// Get the symbol table built by this visitor
    pub fn symbol_table(&self) -> (r: &SymbolTable)
        ensures
            r@ == self.spec_symbols(),
    {
        &self.symbol_table
    }

    /// Get a mutable reference to the symbol table
    pub fn symbol_table_mut(&mut self) -> (r: &mut SymbolTable)
        ensures
            r@ == old(self).spec_symbols(),
            final(self).spec_symbols() == final(r)@,
            final(self).spec_relation_scope() == old(self).spec_relation_scope(),
            final(self).spec_location() == old(self).spec_location(),
    {
        &mut self.symbol_table
    }

    /// The location in the plan that the visitor stands at.
    pub fn current_location(&self) -> (r: &ProtoLocation)
        ensures
            r@ == self.spec_location(),
    {
        &self.current_location
    }

    /// Moves the visitor to a location in the plan.
    pub fn set_location(&mut self, location: ProtoLocation)
        ensures
            final(self).spec_location() == location@,
            final(self).spec_symbols() == old(self).spec_symbols(),
            final(self).spec_relation_scope() == old(self).spec_relation_scope(),
    {
        self.current_location = location;
    }

    /// The position of the first relation symbol defined at `location`.
    fn relation_index(&self, location: ProtoLocation) -> (r: Option<usize>)
        ensures
            stored_position(relation_at(self.spec_symbols(), location@)) == r,
            relation_at(self.spec_symbols(), location@) matches Some(i) ==> 0 <= i < self.spec_symbols().len(),
    {
        proof {
            lemma_location_index_bound(self.spec_symbols(), LocationView::Proto(location@), SymbolType::Relation);
        }
        let boxed = BoxedLocation::Proto(location);
        self.symbol_table.index_of_location_and_type(&boxed, SymbolType::Relation)
    }

    /// Leaves a relation: links the relation defined at the current location to the
    /// relations of its inputs (see `linked`; `input_count` is the number of inputs of a set
    /// or multi-input extension relation), and restores the relation scope saved on entering.
    pub fn post_process_rel(&mut self, rel: &Relation, input_count: usize)
        requires
            links_defined(old(self).spec_symbols(), old(self).spec_location(), *rel, input_count as nat),
        ensures
            final(self).spec_symbols() == linked(old(self).spec_symbols(), old(self).spec_location(), *rel, input_count as nat),
            final(self).spec_relation_scope() == old(self).spec_previous_scope(),
            final(self).spec_location() == old(self).spec_location(),
    {
        self.link_inputs(rel, input_count);
        self.current_relation_scope = duplicate_symbol(&self.previous_relation_scope);
    }

    /// Leaves a plan relation: the first symbol at the current location starts a new pipeline
    /// from the plan relation's relation (see `plan_linked`).
    pub fn post_process_plan_rel(&mut self, relation: &PlanRel)
        requires
            plan_link_defined(old(self).spec_symbols(), old(self).spec_location(), *relation),
        ensures
            final(self).spec_symbols() == plan_linked(old(self).spec_symbols(), old(self).spec_location(), *relation),
            final(self).spec_location() == old(self).spec_location(),
            final(self).spec_relation_scope() == old(self).spec_relation_scope(),
    {
        let ghost symbols = self.spec_symbols();
        let here = BoxedLocation::Proto(self.current_location.duplicate());
        proof {
            lemma_located_index_bound(symbols, here@);
        }
        let k = match self.symbol_table.index_of_location(&here) {
            Some(k) => k,
            None => return,
        };
        let all = self.symbol_table.symbols();
        assert(all@[k as int]@ == symbols[k as int]);
        let mut updated = match all[k].blob() {
            Some(SymbolBlob::Relation(d)) => d.duplicate(),
            _ => return,
        };
        let at = match relation.rel_type {
            Some(PlanRelType::Relation) => self.current_location.field("rel"),
            Some(PlanRelType::Root) => self.current_location.field("root").field("input"),
            None => return,
        };
        match self.relation_index(at) {
            Some(i) => updated.new_pipelines.push(i),
            None => return,
        }
        self.symbol_table.set_blob(k, Some(SymbolBlob::Relation(updated)));
    }

    /// Links the relation defined at the current location to the relations of its inputs.
    fn link_inputs(&mut self, rel: &Relation, input_count: usize)
        requires
            links_defined(old(self).spec_symbols(), old(self).spec_location(), *rel, input_count as nat),
        ensures
            final(self).spec_symbols() == linked(old(self).spec_symbols(), old(self).spec_location(), *rel, input_count as nat),
            final(self).spec_location() == old(self).spec_location(),
            final(self).spec_previous_scope() == old(self).spec_previous_scope(),
    {
        let ghost symbols = self.spec_symbols();
        let ghost loc = self.spec_location();
        let k = match self.relation_index(self.current_location.duplicate()) {
            Some(k) => k,
            None => return,
        };
        let all = self.symbol_table.symbols();
        assert(all@[k as int]@ == symbols[k as int]);
        let data = match all[k].blob() {
            Some(SymbolBlob::Relation(d)) => d.duplicate(),
            _ => return,
        };
        let mut updated = data;
        match rel.rel_type {
            Some(t) => {
                let single: Option<&str> = match t {
                    RelType::Filter => Some("filter"),
                    RelType::Fetch => Some("fetch"),
                    RelType::Aggregate => Some("aggregate"),
                    RelType::Sort => Some("sort"),
                    RelType::Project => Some("project"),
                    RelType::ExtensionSingle => Some("extension_single"),
                    RelType::Write => Some("write"),
                    RelType::Window => Some("window"),
                    RelType::Exchange => Some("exchange"),
                    RelType::Expand => Some("expand"),
                    _ => None,
                };
                let two: Option<&str> = match t {
                    RelType::Join => Some("join"),
                    RelType::Cross => Some("cross"),
                    RelType::HashJoin => Some("hash_join"),
                    RelType::MergeJoin => Some("merge_join"),
                    RelType::NestedLoopJoin => Some("nested_loop_join"),
                    _ => None,
                };
                let many: Option<&str> = match t {
                    RelType::SetOperation => Some("set"),
                    RelType::ExtensionMulti => Some("extension_multi"),
                    _ => None,
                };
                assert(match single { Some(f) => single_input_field(t) == Some(f@), None => single_input_field(t) is None });
                assert(match two { Some(f) => two_input_field(t) == Some(f@), None => two_input_field(t) is None });
                assert(match many { Some(f) => many_input_field(t) == Some(f@), None => many_input_field(t) is None });
                if let Some(f) = single {
                    let at = self.current_location.field(f).field("input");
                    updated.continuing_pipeline = self.relation_index(at);
                } else if let Some(f) = two {
                    let left = self.relation_index(self.current_location.field(f).field("left"));
                    let right = self.relation_index(self.current_location.field(f).field("right"));
                    match (left, right) {
                        (Some(l), Some(r)) => {
                            updated.new_pipelines.push(l);
                            updated.new_pipelines.push(r);
                        },
                        _ => {
                            assert(false);
                            return;
                        },
                    }
                } else if let Some(f) = many {
                    let ghost before = updated.new_pipelines@;
                    let ghost bv = symbols[k as int].blob->0;
                    let mut i: usize = 0;
                    while i < input_count
                        invariant
                            i <= input_count,
                            self.spec_symbols() == symbols,
                            self.spec_location() == loc,
                            many_input_field(t) == Some(f@),
                            links_defined(symbols, loc, *rel, input_count as nat),
                            relation_at(symbols, loc) == Some(k as int),
                            (k as int) < symbols.len(),
                            symbols[k as int].blob == Some(bv),
                            bv is Relation,
                            rel.rel_type == Some(t),
                            updated.pipeline_start == bv->pipeline_start,
                            updated.continuing_pipeline == bv->continuing_pipeline,
                            updated.relation == bv->relation,
                            updated.field_references@ == bv->field_references,
                            updated.generated_field_references@ == bv->generated_field_references,
                            updated.output_field_references@ == bv->output_field_references,
                            crate::textplan::common::text_ops::texts_view(updated.root_names@) == bv->root_names,
                            before == bv->new_pipelines,
                            updated.new_pipelines@ == before + input_positions(symbols, loc, f@, i as nat),
                        decreases input_count - i,
                    {
                        proof {
                            reveal_strlit("inputs");
                        }
                        let at = self.current_location.field(f).indexed_field("inputs", i);
                        assert(relation_at(symbols, input_location(loc, f@, (i as int) as usize)) is Some);
                        match self.relation_index(at) {
                            Some(p) => {
                                updated.new_pipelines.push(p);
                                assert(updated.new_pipelines@ =~= before + input_positions(symbols, loc, f@, (i + 1) as nat));
                            },
                            None => {
                                assert(false);
                                return;
                            },
                        }
                        i += 1;
                    }
                }
            },
            None => {},
        }
        self.symbol_table.set_blob(k, Some(SymbolBlob::Relation(updated)));
    }

    /// Enters a relation: the scope so far is saved, and the relation symbol defined at the
    /// current location (if any) becomes the scope.
    pub fn pre_process_rel(&mut self, rel: &Relation)
        ensures
            final(self).spec_previous_scope() == old(self).spec_relation_scope(),
            final(self).spec_relation_scope() is Some <==> exists|i: int|
                0 <= i < old(self).spec_symbols().len() && #[trigger] old(
                    self,
                ).spec_symbols()[i].location == LocationView::Proto(old(self).spec_location())
                    && old(self).spec_symbols()[i].symbol_type == SymbolType::Relation,
            final(self).spec_relation_scope() matches Some(s) ==> exists|i: int|
                0 <= i < old(self).spec_symbols().len() && old(self).spec_symbols()[i] == s
                    && s.location == LocationView::Proto(old(self).spec_location()) && s.symbol_type
                    == SymbolType::Relation && forall|j: int|
                    0 <= j < i ==> !(#[trigger] old(self).spec_symbols()[j].location
                        == LocationView::Proto(old(self).spec_location()) && old(
                        self,
                    ).spec_symbols()[j].symbol_type == SymbolType::Relation),
            final(self).spec_symbols() == old(self).spec_symbols(),
            final(self).spec_location() == old(self).spec_location(),
    {
        self.previous_relation_scope = duplicate_symbol(&self.current_relation_scope);
        let location = BoxedLocation::Proto(self.current_location.duplicate());
        let symbol = match self.symbol_table.lookup_symbol_by_location_and_type(
            &location,
            SymbolType::Relation,
        ) {
            Some(s) => Some(s.duplicate()),
            None => None,
        };
        self.current_relation_scope = symbol;
    }
}

} // verus!
