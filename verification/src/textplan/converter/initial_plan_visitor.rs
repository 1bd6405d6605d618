//! The first pass over a Substrait plan: it builds a symbol table from the plan's elements.

use vstd::prelude::*;

use crate::proto::{
    relation_type_name, MappingType, PlanRel, PlanRelType, Relation, RelRoot, RelType, SimpleExtensionDeclaration,
    SimpleExtensionUri,
};
use crate::textplan::common::location::{BoxedLocation, LocationView};
use crate::textplan::common::proto_location::{
    path_text, PathComponentView, ProtoLocation, ProtoLocationView,
};
use crate::textplan::common::structured_symbol_data::{ExtensionSpaceData, FunctionData, RelationData};
use crate::textplan::common::text_ops::{copy_texts, texts_view};
use crate::textplan::common::text_scan::{find, find_char};
use crate::textplan::symbol_table::{is_first_free_number, is_symbol_name};
use crate::textplan::common::text_format::decimal;
use crate::textplan::symbol_table::{
    unique_name_for, BlobView, SourceType, SubtypeView, SymbolBlob, SymbolInfoView, SymbolSubtype,
    SymbolTable, SymbolType,
};
use crate::textplan::converter::pipeline_visitor::{
    child_location, input_location, many_input_field, relation_at, single_input_field, two_input_field,
};
use crate::textplan::symbol_table::{lemma_location_index_bound, location_index};

verus! {

/// The part of a name before its first `:` (all of it when it has none).
pub open spec fn short_name_of(s: Seq<char>) -> Seq<char> {
    match find_char(s, ':') {
        Some(i) => s.take(i),
        None => s,
    }
}

/// The part of a name before its first `:`.
fn short_name(s: &str) -> (r: &str)
    ensures
        r@ == short_name_of(s@),
{
    match find(s, ':') {
        Some(index) => {
            let r = s.substring_char(0, index);
            assert(r@ =~= s@.take(index as int));
            r
        },
        None => s,
    }
}

/// The name of a plan relation's kind.
pub open spec fn plan_rel_type_name(obj: PlanRel) -> Seq<char> {
    match obj.rel_type {
        Some(PlanRelType::Relation) => "rel"@,
        Some(PlanRelType::Root) => "root"@,
        None => "unknown"@,
    }
}

/// The name of a plan relation's kind.
fn plan_rel_type_case_name(obj: &PlanRel) -> (r: &'static str)
    ensures
        r@ == plan_rel_type_name(*obj),
{
    if let Some(oneof) = &obj.rel_type {
        match oneof {
            PlanRelType::Relation => "rel",
            PlanRelType::Root => "root",
        }
    } else {
        "unknown"
    }
}

/// The name this pass gives a relation's kind (a fetch relation is named `root`).
pub open spec fn rel_type_case_text(relation: Relation) -> Seq<char> {
    match relation.rel_type {
        Some(RelType::Read) => "read"@,
        Some(RelType::Filter) => "filter"@,
        Some(RelType::Fetch) => "root"@,
        Some(RelType::Aggregate) => "aggregate"@,
        Some(RelType::Sort) => "sort"@,
        Some(RelType::Join) => "join"@,
        Some(RelType::Project) => "project"@,
        Some(RelType::SetOperation) => "set"@,
        Some(RelType::ExtensionSingle) => "extension_single"@,
        Some(RelType::ExtensionMulti) => "extension_multi"@,
        Some(RelType::ExtensionLeaf) => "extension_leaf"@,
        Some(RelType::Cross) => "cross"@,
        Some(RelType::Reference) => "reference"@,
        Some(RelType::Write) => "write"@,
        Some(RelType::Ddl) => "ddl"@,
        Some(RelType::Update) => "update"@,
        Some(RelType::HashJoin) => "hash_join"@,
        Some(RelType::MergeJoin) => "merge_join"@,
        Some(RelType::NestedLoopJoin) => "nested_loop_join"@,
        Some(RelType::Window) => "window"@,
        Some(RelType::Exchange) => "exchange"@,
        Some(RelType::Expand) => "expand"@,
        None => "unknown"@,
    }
}

/// A relation recorded from a binary plan is named after its own kind: the name this pass
/// gives a relation's kind is the name `relation_type_to_string` gives it, except that a
/// fetch relation is named `root`; and the symbol name made from it begins with that name,
/// whatever symbols are already defined.
pub proof fn lemma_relation_symbol_named_after_kind(relation: Relation, symbols: Seq<SymbolInfoView>)
    ensures
        relation.rel_type != Some(RelType::Fetch) ==> rel_type_case_text(relation)
            == relation_type_name(relation),
        relation.rel_type == Some(RelType::Fetch) ==> rel_type_case_text(relation) == "root"@,
        unique_name_for(symbols, rel_type_case_text(relation)).len() >= rel_type_case_text(
            relation,
        ).len(),
        unique_name_for(symbols, rel_type_case_text(relation)).take(
            rel_type_case_text(relation).len() as int,
        ) == rel_type_case_text(relation),
{
    let base = rel_type_case_text(relation);
    let name = unique_name_for(symbols, base);
    if is_symbol_name(symbols, base) {
        let k = choose|k: int| is_first_free_number(symbols, base, k);
        assert(name == base + decimal(k as nat));
        assert(name.take(base.len() as int) =~= base);
    } else {
        assert(name.take(base.len() as int) =~= base);
    }
}

/// The name this pass gives a relation's kind.
fn rel_type_case_name(relation: &Relation) -> (r: &'static str)
    ensures
        r@ == rel_type_case_text(*relation),
{
    if let Some(oneof) = &relation.rel_type {
        match oneof {
            RelType::Read => "read",
            RelType::Filter => "filter",
            RelType::Fetch => "root",
            RelType::Aggregate => "aggregate",
            RelType::Sort => "sort",
            RelType::Join => "join",
            RelType::Project => "project",
            RelType::SetOperation => "set",
            RelType::ExtensionSingle => "extension_single",
            RelType::ExtensionMulti => "extension_multi",
            RelType::ExtensionLeaf => "extension_leaf",
            RelType::Cross => "cross",
            RelType::Reference => "reference",
            RelType::Write => "write",
            RelType::Ddl => "ddl",
            RelType::Update => "update",
            RelType::HashJoin => "hash_join",
            RelType::MergeJoin => "merge_join",
            RelType::NestedLoopJoin => "nested_loop_join",
            RelType::Window => "window",
            RelType::Exchange => "exchange",
            RelType::Expand => "expand",
        }
    } else {
        "unknown"
    }
}

/// The name under which the root's output names are recorded.
pub const ROOT_NAMES: &'static str = "root.names";

/// The location one field further than `v`.
pub open spec fn field_location(v: ProtoLocationView, field: Seq<char>) -> LocationView {
    LocationView::Proto(ProtoLocationView { path: v.path.push(PathComponentView::Field(field)), ..v })
}

/// What the first pass reads of an expression of a project relation: a direct reference to
/// a field of the input (by its position), another selection, or a computed value.
#[derive(Debug, Clone, Copy, PartialEq, Eq, Structural)]
pub enum ProjectExpression {
    Field(i32),
    Selection,
    Computed,
}

/// What the first pass reads of a relation to learn its fields: the relation's kind, the
/// names of the base schema of a read (where it has one), whether the input(s) its kind
/// names are there (one input; both left and right; a DDL's view definition), the number
/// of inputs of a set or multi-input extension, the field each grouping expression of an
/// aggregate refers to directly (none for other expressions; all groupings in order), the
/// number of measures of an aggregate, what each expression of a project is, and the output
/// mapping of its common part (empty where it emits directly).
#[derive(Debug)]
pub struct RelationFields {
    pub relation: Relation,
    pub base_schema_names: Option<Vec<String>>,
    pub has_input: bool,
    pub input_count: usize,
    pub grouping_fields: Vec<Option<i32>>,
    pub measure_count: usize,
    pub expressions: Vec<ProjectExpression>,
    pub output_mapping: Vec<i32>,
}

/// The symbols and the field lists of a relation while the first pass records its fields.
pub ghost struct SchemaState {
    pub symbols: Seq<SymbolInfoView>,
    pub fields: Seq<usize>,
    pub generated: Seq<usize>,
    pub output: Seq<usize>,
}

/// The fields that the relation at a location puts out: its output fields where it has
/// any, else the fields that come into it followed by those it makes (none where no
/// relation with relation data stands there).
pub open spec fn fields_at(t: Seq<SymbolInfoView>, loc: ProtoLocationView) -> Seq<usize> {
    match relation_at(t, loc) {
        Some(k) => match t[k].blob {
            Some(BlobView::Relation { field_references, generated_field_references, output_field_references, .. }) => {
                if output_field_references.len() > 0 {
                    output_field_references
                } else {
                    field_references + generated_field_references
                }
            },
            _ => Seq::empty(),
        },
        None => Seq::empty(),
    }
}

/// The fields put out by the first `n` inputs of the list field `kind` below `loc`, in order.
pub open spec fn listed_inputs_fields(t: Seq<SymbolInfoView>, loc: ProtoLocationView, kind: Seq<char>, n: nat) -> Seq<usize>
    decreases n,
{
    if n == 0 {
        Seq::empty()
    } else {
        listed_inputs_fields(t, loc, kind, (n - 1) as nat) + fields_at(t, input_location(loc, kind, (n - 1) as usize))
    }
}

/// The fields that come into a relation at `loc` from its inputs: those of its one input,
/// of its left then its right input, of each of its listed inputs, or of a DDL's view
/// definition, where the inputs are there.
pub open spec fn input_fields(t: Seq<SymbolInfoView>, loc: ProtoLocationView, r: RelationFields) -> Seq<usize> {
    match r.relation.rel_type {
        Some(k) => if single_input_field(k) is Some {
            if r.has_input {
                fields_at(t, child_location(loc, single_input_field(k)->0, "input"@))
            } else {
                Seq::empty()
            }
        } else if two_input_field(k) is Some {
            if r.has_input {
                fields_at(t, child_location(loc, two_input_field(k)->0, "left"@)) + fields_at(
                    t,
                    child_location(loc, two_input_field(k)->0, "right"@),
                )
            } else {
                Seq::empty()
            }
        } else if many_input_field(k) is Some {
            listed_inputs_fields(t, loc, many_input_field(k)->0, r.input_count as nat)
        } else if k == RelType::Ddl && r.has_input {
            fields_at(t, child_location(loc, "ddl"@, "view_definition"@))
        } else {
            Seq::empty()
        },
        None => Seq::empty(),
    }
}

/// The location one field further than `loc`.
pub open spec fn field_below(loc: ProtoLocationView, name: Seq<char>) -> ProtoLocationView {
    ProtoLocationView { path: loc.path.push(PathComponentView::Field(name)), ..loc }
}

/// The symbol of a field of the base schema of a read at `loc`.
pub open spec fn base_schema_field(name: Seq<char>, loc: ProtoLocationView) -> SymbolInfoView {
    SymbolInfoView {
        name,
        location: LocationView::Proto(child_location(loc, "read"@, "base_schema"@)),
        symbol_type: SymbolType::Field,
        subtype: Some(SubtypeView::Source(SourceType::Unknown)),
        blob: None,
    }
}

/// The symbols after adding the fields of a base schema, in order.
pub open spec fn with_base_schema_fields(t: Seq<SymbolInfoView>, names: Seq<Seq<char>>, loc: ProtoLocationView) -> Seq<SymbolInfoView>
    decreases names.len(),
{
    if names.len() == 0 {
        t
    } else {
        with_base_schema_fields(t, names.drop_last(), loc).push(base_schema_field(names.last(), loc))
    }
}

/// The positions `start`, `start + 1`, ... of `n` symbols.
pub open spec fn positions(start: int, n: nat) -> Seq<usize> {
    Seq::new(n, |i: int| (start + i) as usize)
}

/// The symbols after adding `n` measures of an aggregate at `loc`, each under a free name
/// made from "measurename".
pub open spec fn with_measures(t: Seq<SymbolInfoView>, n: nat, loc: ProtoLocationView) -> Seq<SymbolInfoView>
    decreases n,
{
    if n == 0 {
        t
    } else {
        let prev = with_measures(t, (n - 1) as nat, loc);
        prev.push(
            SymbolInfoView {
                name: unique_name_for(prev, "measurename"@),
                location: LocationView::Proto(child_location(loc, "aggregate"@, "measures"@)),
                symbol_type: SymbolType::Measure,
                subtype: Some(SubtypeView::Source(SourceType::Unknown)),
                blob: None,
            },
        )
    }
}

/// The fields that grouping expressions refer to directly, in order; references to a
/// position the input does not have are left out.
pub open spec fn grouped_fields(fields: Seq<usize>, gs: Seq<Option<i32>>) -> Seq<usize>
    decreases gs.len(),
{
    if gs.len() == 0 {
        Seq::empty()
    } else {
        grouped_fields(fields, gs.drop_last()) + match gs.last() {
            Some(x) => if 0 <= x < fields.len() {
                seq![fields[x as int]]
            } else {
                Seq::empty()
            },
            None => Seq::empty(),
        }
    }
}

/// The state after the expressions of a project at `loc`: a direct reference to an input
/// field makes that field; a computed value makes a new symbol under a free name made from
/// "intermediate"; other selections make nothing.
pub open spec fn after_expressions(st: SchemaState, es: Seq<ProjectExpression>, loc: ProtoLocationView) -> SchemaState
    decreases es.len(),
{
    if es.len() == 0 {
        st
    } else {
        let s = after_expressions(st, es.drop_last(), loc);
        match es.last() {
            ProjectExpression::Field(x) => if 0 <= x < s.fields.len() {
                SchemaState { generated: s.generated.push(s.fields[x as int]), ..s }
            } else {
                s
            },
            ProjectExpression::Selection => s,
            ProjectExpression::Computed => SchemaState {
                symbols: s.symbols.push(
                    SymbolInfoView {
                        name: unique_name_for(s.symbols, "intermediate"@),
                        location: LocationView::Proto(field_below(loc, "project"@)),
                        symbol_type: SymbolType::Unknown,
                        subtype: None,
                        blob: None,
                    },
                ),
                generated: s.generated.push(s.symbols.len() as usize),
                ..s
            },
        }
    }
}

/// The fields that an output mapping picks from the generated fields of an aggregate;
/// positions beyond them are left out.
pub open spec fn mapped_generated(g: Seq<usize>, m: Seq<i32>) -> Seq<usize>
    decreases m.len(),
{
    if m.len() == 0 {
        Seq::empty()
    } else {
        mapped_generated(g, m.drop_last()) + if 0 <= m.last() < g.len() {
            seq![g[m.last() as int]]
        } else {
            Seq::empty()
        }
    }
}

/// The fields that an output mapping picks from the incoming fields followed by the
/// generated ones; positions beyond them are left out.
pub open spec fn mapped_fields(f: Seq<usize>, g: Seq<usize>, m: Seq<i32>) -> Seq<usize>
    decreases m.len(),
{
    if m.len() == 0 {
        Seq::empty()
    } else {
        mapped_fields(f, g, m.drop_last()) + if 0 <= m.last() < f.len() {
            seq![f[m.last() as int]]
        } else if f.len() <= m.last() < f.len() + g.len() {
            seq![g[m.last() - f.len()]]
        } else {
            Seq::empty()
        }
    }
}

/// The fields that the first pass records for a relation at `loc`, starting from `st`: a
/// read adds a field symbol for each name of its base schema; an aggregate takes its
/// input's fields, makes the fields its groupings refer to and a measure symbol for each
/// measure, and puts out all it makes; a project takes its input's fields and makes those
/// of its expressions; other relations take the fields of their inputs. An output mapping
/// then picks the fields put out: from the fields an aggregate makes, in place of those;
/// otherwise from the incoming fields followed by the made ones, after those put out.
pub open spec fn local_schema(st: SchemaState, loc: ProtoLocationView, r: RelationFields) -> SchemaState {
    let t = st.symbols;
    let s1 = match r.relation.rel_type {
        Some(RelType::Read) => match r.base_schema_names {
            Some(names) => SchemaState {
                symbols: with_base_schema_fields(t, texts_view(names@), loc),
                fields: st.fields + positions(t.len() as int, names@.len()),
                ..st
            },
            None => st,
        },
        Some(RelType::Aggregate) => {
            let f = st.fields + input_fields(t, loc, r);
            let g = st.generated + grouped_fields(f, r.grouping_fields@) + positions(t.len() as int, r.measure_count as nat);
            SchemaState {
                symbols: with_measures(t, r.measure_count as nat, loc),
                fields: f,
                generated: g,
                output: st.output + g,
            }
        },
        Some(RelType::Project) => after_expressions(
            SchemaState { fields: st.fields + input_fields(t, loc, r), ..st },
            r.expressions@,
            loc,
        ),
        _ => SchemaState { fields: st.fields + input_fields(t, loc, r), ..st },
    };
    if r.output_mapping@.len() == 0 {
        s1
    } else if r.relation.rel_type == Some(RelType::Aggregate) {
        SchemaState { output: mapped_generated(s1.generated, r.output_mapping@), ..s1 }
    } else {
        SchemaState { output: s1.output + mapped_fields(s1.fields, s1.generated, r.output_mapping@), ..s1 }
    }
}

/// The symbols after adding the fields of a base schema are as many more.
proof fn lemma_base_schema_fields_len(t: Seq<SymbolInfoView>, names: Seq<Seq<char>>, loc: ProtoLocationView)
    ensures
        with_base_schema_fields(t, names, loc).len() == t.len() + names.len(),
    decreases names.len(),
{
    if names.len() > 0 {
        lemma_base_schema_fields_len(t, names.drop_last(), loc);
    }
}

/// The symbols after adding measures are as many more.
proof fn lemma_measures_len(t: Seq<SymbolInfoView>, n: nat, loc: ProtoLocationView)
    ensures
        with_measures(t, n, loc).len() == t.len() + n,
    decreases n,
{
    if n > 0 {
        lemma_measures_len(t, (n - 1) as nat, loc);
    }
}

/// The first pass over a plan: it records the plan's elements in a symbol table.
pub struct InitialPlanVisitor {
    /// Symbol table for storing plan element information
    symbol_table: SymbolTable,
    /// Current relation context for scope resolution
    current_relation_scope: Vec<String>,
    /// Stack of locations of the relations being visited
    current_relation_locations: Vec<ProtoLocation>,
    internal_location: ProtoLocation,
}

impl InitialPlanVisitor {
    /// The symbols of the visitor's table.
    pub closed spec fn spec_symbols(&self) -> Seq<SymbolInfoView> {
        self.symbol_table@
    }

    /// The names of the relations being visited, outermost first.
    pub closed spec fn spec_relation_scope(&self) -> Seq<Seq<char>> {
        texts_view(self.current_relation_scope@)
    }

    /// Where in the plan the visitor stands.
    pub closed spec fn spec_location(&self) -> ProtoLocationView {
        self.internal_location@
    }

    /// The locations of the relations being visited, outermost first.
    pub closed spec fn spec_relation_locations(&self) -> Seq<ProtoLocationView> {
        self.current_relation_locations@.map_values(|l: ProtoLocation| l@)
    }

    /// Create a new initial visitor with the given symbol table
    pub fn new(symbol_table: SymbolTable) -> (r: Self)
        ensures
            r.spec_symbols() == symbol_table@,
            r.spec_relation_scope().len() == 0,
            r.spec_relation_locations().len() == 0,
    {
        Self {
            symbol_table,
            current_relation_scope: Vec::new(),
            current_relation_locations: Vec::new(),
            internal_location: ProtoLocation::unknown(),
        }
    }

    /// Get the symbol table built by this visitor
    pub fn symbol_table(&self) -> (r: &SymbolTable)
        ensures
            r@ == self.spec_symbols(),
    {
        &self.symbol_table
    }

    /// Get a mutable reference to the symbol table
    pub fn symbol_table_mut(&mut self) -> (r: &mut SymbolTable)
        ensures
            r@ == old(self).spec_symbols(),
            final(self).spec_symbols() == final(r)@,
            final(self).spec_relation_scope() == old(self).spec_relation_scope(),
            final(self).spec_relation_locations() == old(self).spec_relation_locations(),
    {
        &mut self.symbol_table
    }

    /// The location in the plan that the visitor stands at.
    pub fn current_location(&self) -> (r: &ProtoLocation)
        ensures
            r@ == self.spec_location(),
    {
        &self.internal_location
    }

    /// Moves the visitor to a location in the plan.
    pub fn set_location(&mut self, location: ProtoLocation)
        ensures
            final(self).spec_location() == location@,
            final(self).spec_symbols() == old(self).spec_symbols(),
            final(self).spec_relation_scope() == old(self).spec_relation_scope(),
            final(self).spec_relation_locations() == old(self).spec_relation_locations(),
    {
        self.internal_location = location;
    }

    /// Enters a relation: its path in the plan and its location become the innermost scope.
    pub fn pre_process_rel(&mut self, obj: &Relation)
        ensures
            final(self).spec_relation_scope() == old(self).spec_relation_scope().push(
                path_text(old(self).spec_location().path),
            ),
            final(self).spec_relation_locations() == old(self).spec_relation_locations().push(
                old(self).spec_location(),
            ),
            final(self).spec_symbols() == old(self).spec_symbols(),
            final(self).spec_location() == old(self).spec_location(),
    {
        let location_path = self.internal_location.path_string();
        let ghost scope = self.current_relation_scope@;
        self.current_relation_scope.push(location_path);
        assert(texts_view(self.current_relation_scope@) =~= texts_view(scope).push(
            path_text(old(self).spec_location().path),
        ));
        let ghost locations = self.current_relation_locations@;
        self.current_relation_locations.push(self.internal_location.duplicate());
        assert(self.spec_relation_locations() =~= locations.map_values(|l: ProtoLocation| l@).push(
            old(self).spec_location(),
        ));
    }

    /// The fields that the relation at `loc` puts out (see `fields_at`).
    fn fields_at_location(&self, loc: ProtoLocation) -> (r: Vec<usize>)
        ensures
            r@ == fields_at(self.spec_symbols(), loc@),
    {
        let ghost t = self.spec_symbols();
        proof {
            lemma_location_index_bound(t, LocationView::Proto(loc@), SymbolType::Relation);
        }
        let boxed = BoxedLocation::Proto(loc);
        match self.symbol_table.index_of_location_and_type(&boxed, SymbolType::Relation) {
            Some(k) => {
                let all = self.symbol_table.symbols();
                assert(all@[k as int]@ == t[k as int]);
                match all[k].blob() {
                    Some(SymbolBlob::Relation(d)) => {
                        if d.output_field_references.len() > 0 {
                            d.output_field_references.clone()
                        } else {
                            let mut v = d.field_references.clone();
                            let mut g = d.generated_field_references.clone();
                            v.append(&mut g);
                            v
                        }
                    },
                    _ => Vec::new(),
                }
            },
            None => Vec::new(),
        }
    }

    /// The fields that come into a relation at the current location from its inputs (see
    /// `input_fields`).
    fn input_fields_of(&self, r: &RelationFields) -> (v: Vec<usize>)
        ensures
            v@ == input_fields(self.spec_symbols(), self.spec_location(), *r),
    {
        let ghost t = self.spec_symbols();
        let ghost loc = self.spec_location();
        let k = match r.relation.rel_type {
            Some(k) => k,
            None => return Vec::new(),
        };
        let single: Option<&str> = match k {
            RelType::Filter => Some("filter"),
            RelType::Fetch => Some("fetch"),
            RelType::Aggregate => Some("aggregate"),
            RelType::Sort => Some("sort"),
            RelType::Project => Some("project"),
            RelType::ExtensionSingle => Some("extension_single"),
            RelType::Write => Some("write"),
            RelType::Window => Some("window"),
            RelType::Exchange => Some("exchange"),
            RelType::Expand => Some("expand"),
            _ => None,
        };
        let two: Option<&str> = match k {
            RelType::Join => Some("join"),
            RelType::Cross => Some("cross"),
            RelType::HashJoin => Some("hash_join"),
            RelType::MergeJoin => Some("merge_join"),
            RelType::NestedLoopJoin => Some("nested_loop_join"),
            _ => None,
        };
        let many: Option<&str> = match k {
            RelType::SetOperation => Some("set"),
            RelType::ExtensionMulti => Some("extension_multi"),
            _ => None,
        };
        assert(match single { Some(f) => single_input_field(k) == Some(f@), None => single_input_field(k) is None });
        assert(match two { Some(f) => two_input_field(k) == Some(f@), None => two_input_field(k) is None });
        assert(match many { Some(f) => many_input_field(k) == Some(f@), None => many_input_field(k) is None });
        if let Some(f) = single {
            if r.has_input {
                self.fields_at_location(self.internal_location.field(f).field("input"))
            } else {
                Vec::new()
            }
        } else if let Some(f) = two {
            if r.has_input {
                let mut v = self.fields_at_location(self.internal_location.field(f).field("left"));
                let mut w = self.fields_at_location(self.internal_location.field(f).field("right"));
                v.append(&mut w);
                v
            } else {
                Vec::new()
            }
        } else if let Some(f) = many {
            let mut v: Vec<usize> = Vec::new();
            let mut i: usize = 0;
            while i < r.input_count
                invariant
                    i <= r.input_count,
                    self.spec_symbols() == t,
                    self.spec_location() == loc,
                    v@ == listed_inputs_fields(t, loc, f@, i as nat),
                decreases r.input_count - i,
            {
                proof {
                    reveal_strlit("inputs");
                }
                let mut w = self.fields_at_location(self.internal_location.field(f).indexed_field("inputs", i));
                v.append(&mut w);
                i += 1;
            }
            v
        } else if k == RelType::Ddl && r.has_input {
            self.fields_at_location(self.internal_location.field("ddl").field("view_definition"))
        } else {
            Vec::new()
        }
    }

    /// Records the fields of a relation at the current location (see `local_schema`): the
    /// symbols it adds go to the symbol table, its field lists to `relation_data`.
    pub fn update_local_schema(&mut self, relation_data: &mut RelationData, r: &RelationFields)
        ensures
            ({
                let st = local_schema(
                    SchemaState {
                        symbols: old(self).spec_symbols(),
                        fields: old(relation_data).field_references@,
                        generated: old(relation_data).generated_field_references@,
                        output: old(relation_data).output_field_references@,
                    },
                    old(self).spec_location(),
                    *r,
                );
                &&& final(self).spec_symbols() == st.symbols
                &&& final(relation_data).field_references@ == st.fields
                &&& final(relation_data).generated_field_references@ == st.generated
                &&& final(relation_data).output_field_references@ == st.output
            }),
            final(relation_data).pipeline_start == old(relation_data).pipeline_start,
            final(relation_data).continuing_pipeline == old(relation_data).continuing_pipeline,
            final(relation_data).new_pipelines@ == old(relation_data).new_pipelines@,
            final(relation_data).relation == old(relation_data).relation,
            texts_view(final(relation_data).root_names@) == texts_view(old(relation_data).root_names@),
            final(self).spec_location() == old(self).spec_location(),
            final(self).spec_relation_scope() == old(self).spec_relation_scope(),
            final(self).spec_relation_locations() == old(self).spec_relation_locations(),
    {
        let ghost t = self.spec_symbols();
        let ghost loc = self.spec_location();
        let ghost st0 = SchemaState {
            symbols: t,
            fields: relation_data.field_references@,
            generated: relation_data.generated_field_references@,
            output: relation_data.output_field_references@,
        };
        match r.relation.rel_type {
            Some(RelType::Read) => {
                if let Some(names) = &r.base_schema_names {
                    let ghost f0 = relation_data.field_references@;
                    let mut i: usize = 0;
                    while i < names.len()
                        invariant
                            i <= names.len(),
                            self.spec_location() == loc,
                            self.spec_relation_scope() == old(self).spec_relation_scope(),
                            self.spec_relation_locations() == old(self).spec_relation_locations(),
                            t.len() + i <= self.spec_symbols().len(),
                            self.spec_symbols() == with_base_schema_fields(t, texts_view(names@).take(i as int), loc),
                            relation_data.field_references@ == f0 + positions(t.len() as int, i as nat),
                            relation_data.generated_field_references@ == st0.generated,
                            relation_data.output_field_references@ == st0.output,
                            relation_data.pipeline_start == old(relation_data).pipeline_start,
                            relation_data.continuing_pipeline == old(relation_data).continuing_pipeline,
                            relation_data.new_pipelines@ == old(relation_data).new_pipelines@,
                            relation_data.relation == old(relation_data).relation,
                            relation_data.root_names@ == old(relation_data).root_names@,
                        decreases names.len() - i,
                    {
                        proof {
                            lemma_base_schema_fields_len(t, texts_view(names@).take(i as int), loc);
                        }
                        let index = self.symbol_table.len();
                        let location = self.internal_location.field("read").field("base_schema");
                        self.symbol_table.define_symbol(
                            names[i].clone(),
                            BoxedLocation::Proto(location),
                            SymbolType::Field,
                            Some(SymbolSubtype::Source(SourceType::Unknown)),
                            None,
                        );
                        relation_data.field_references.push(index);
                        assert(texts_view(names@).take(i as int + 1).drop_last() =~= texts_view(names@).take(i as int));
                        assert(relation_data.field_references@ =~= f0 + positions(t.len() as int, (i + 1) as nat));
                        i += 1;
                    }
                    assert(texts_view(names@).take(i as int) =~= texts_view(names@));
                }
            },
            Some(RelType::Aggregate) => {
                let mut incoming = self.input_fields_of(r);
                relation_data.field_references.append(&mut incoming);
                let ghost f = relation_data.field_references@;
                let ghost g0 = relation_data.generated_field_references@;
                let mut j: usize = 0;
                while j < r.grouping_fields.len()
                    invariant
                        j <= r.grouping_fields.len(),
                        self.spec_symbols() == t,
                        relation_data.field_references@ == f,
                        relation_data.generated_field_references@ == g0 + grouped_fields(f, r.grouping_fields@.take(j as int)),
                        relation_data.output_field_references@ == st0.output,
                        relation_data.pipeline_start == old(relation_data).pipeline_start,
                        relation_data.continuing_pipeline == old(relation_data).continuing_pipeline,
                        relation_data.new_pipelines@ == old(relation_data).new_pipelines@,
                        relation_data.relation == old(relation_data).relation,
                        relation_data.root_names@ == old(relation_data).root_names@,
                    decreases r.grouping_fields.len() - j,
                {
                    assert(r.grouping_fields@.take(j as int + 1).drop_last() =~= r.grouping_fields@.take(j as int));
                    let ghost before = relation_data.generated_field_references@;
                    if let Some(x) = r.grouping_fields[j] {
                        if x >= 0 && (x as usize) < relation_data.field_references.len() {
                            let field = relation_data.field_references[x as usize];
                            relation_data.generated_field_references.push(field);
                            assert(relation_data.generated_field_references@ =~= before + seq![f[x as int]]);
                        } else {
                            assert(before + Seq::<usize>::empty() =~= before);
                        }
                    } else {
                        assert(before + Seq::<usize>::empty() =~= before);
                    }
                    j += 1;
                }
                assert(r.grouping_fields@.take(j as int) =~= r.grouping_fields@);
                let ghost g1 = relation_data.generated_field_references@;
                let mut m: usize = 0;
                while m < r.measure_count
                    invariant
                        m <= r.measure_count,
                        self.spec_location() == loc,
                        self.spec_relation_scope() == old(self).spec_relation_scope(),
                        self.spec_relation_locations() == old(self).spec_relation_locations(),
                        t.len() + m <= self.spec_symbols().len(),
                        self.spec_symbols() == with_measures(t, m as nat, loc),
                        relation_data.field_references@ == f,
                        relation_data.generated_field_references@ == g1 + positions(t.len() as int, m as nat),
                        relation_data.output_field_references@ == st0.output,
                        relation_data.pipeline_start == old(relation_data).pipeline_start,
                        relation_data.continuing_pipeline == old(relation_data).continuing_pipeline,
                        relation_data.new_pipelines@ == old(relation_data).new_pipelines@,
                        relation_data.relation == old(relation_data).relation,
                        relation_data.root_names@ == old(relation_data).root_names@,
                    decreases r.measure_count - m,
                {
                    proof {
                        lemma_measures_len(t, m as nat, loc);
                    }
                    let index = self.symbol_table.len();
                    let name = self.symbol_table.get_unique_name("measurename");
                    let location = self.internal_location.field("aggregate").field("measures");
                    self.symbol_table.define_symbol(
                        name,
                        BoxedLocation::Proto(location),
                        SymbolType::Measure,
                        Some(SymbolSubtype::Source(SourceType::Unknown)),
                        None,
                    );
                    relation_data.generated_field_references.push(index);
                    assert(relation_data.generated_field_references@ =~= g1 + positions(t.len() as int, (m + 1) as nat));
                    m += 1;
                }
                let mut made = relation_data.generated_field_references.clone();
                relation_data.output_field_references.append(&mut made);
                assert(g0 + grouped_fields(f, r.grouping_fields@) + positions(t.len() as int, r.measure_count as nat) =~= relation_data.generated_field_references@);
            },
            Some(RelType::Project) => {
                let mut incoming = self.input_fields_of(r);
                relation_data.field_references.append(&mut incoming);
                let ghost f = relation_data.field_references@;
                let ghost sp = SchemaState { fields: f, ..st0 };
                let mut j: usize = 0;
                while j < r.expressions.len()
                    invariant
                        j <= r.expressions.len(),
                        self.spec_location() == loc,
                        self.spec_relation_scope() == old(self).spec_relation_scope(),
                        self.spec_relation_locations() == old(self).spec_relation_locations(),
                        relation_data.field_references@ == f,
                        (SchemaState {
                            symbols: self.spec_symbols(),
                            fields: f,
                            generated: relation_data.generated_field_references@,
                            output: relation_data.output_field_references@,
                        }) == after_expressions(sp, r.expressions@.take(j as int), loc),
                        relation_data.pipeline_start == old(relation_data).pipeline_start,
                        relation_data.continuing_pipeline == old(relation_data).continuing_pipeline,
                        relation_data.new_pipelines@ == old(relation_data).new_pipelines@,
                        relation_data.relation == old(relation_data).relation,
                        relation_data.root_names@ == old(relation_data).root_names@,
                    decreases r.expressions.len() - j,
                {
                    assert(r.expressions@.take(j as int + 1).drop_last() =~= r.expressions@.take(j as int));
                    match r.expressions[j] {
                        ProjectExpression::Field(x) => {
                            if x >= 0 && (x as usize) < relation_data.field_references.len() {
                                let field = relation_data.field_references[x as usize];
                                relation_data.generated_field_references.push(field);
                            }
                        },
                        ProjectExpression::Selection => {},
                        ProjectExpression::Computed => {
                            let index = self.symbol_table.len();
                            let name = self.symbol_table.get_unique_name("intermediate");
                            let location = self.internal_location.field("project");
                            self.symbol_table.define_symbol(name, BoxedLocation::Proto(location), SymbolType::Unknown, None, None);
                            relation_data.generated_field_references.push(index);
                        },
                    }
                    j += 1;
                }
                assert(r.expressions@.take(j as int) =~= r.expressions@);
            },
            _ => {
                let mut incoming = self.input_fields_of(r);
                relation_data.field_references.append(&mut incoming);
            },
        }
        let ghost s1 = SchemaState {
            symbols: self.spec_symbols(),
            fields: relation_data.field_references@,
            generated: relation_data.generated_field_references@,
            output: relation_data.output_field_references@,
        };
        if r.output_mapping.len() > 0 {
            let is_aggregate = match r.relation.rel_type {
                Some(RelType::Aggregate) => true,
                _ => false,
            };
            let fsize = relation_data.field_references.len();
            let gsize = relation_data.generated_field_references.len();
            let mut picked: Vec<usize> = Vec::new();
            let mut j: usize = 0;
            while j < r.output_mapping.len()
                invariant
                    j <= r.output_mapping.len(),
                    fsize == s1.fields.len(),
                    gsize == s1.generated.len(),
                    relation_data.field_references@ == s1.fields,
                    relation_data.generated_field_references@ == s1.generated,
                    is_aggregate ==> picked@ == mapped_generated(s1.generated, r.output_mapping@.take(j as int)),
                    !is_aggregate ==> picked@ == mapped_fields(s1.fields, s1.generated, r.output_mapping@.take(j as int)),
                decreases r.output_mapping.len() - j,
            {
                assert(r.output_mapping@.take(j as int + 1).drop_last() =~= r.output_mapping@.take(j as int));
                let x = r.output_mapping[j];
                let ghost before = picked@;
                if is_aggregate {
                    if x >= 0 && (x as usize) < gsize {
                        picked.push(relation_data.generated_field_references[x as usize]);
                    }
                } else if x >= 0 && (x as usize) < fsize {
                    picked.push(relation_data.field_references[x as usize]);
                } else if x >= 0 && (x as usize) - fsize < gsize && (x as usize) >= fsize {
                    picked.push(relation_data.generated_field_references[(x as usize) - fsize]);
                }
                assert(picked@ =~= before + (picked@.subrange(before.len() as int, picked@.len() as int)));
                j += 1;
            }
            assert(r.output_mapping@.take(j as int) =~= r.output_mapping@);
            if is_aggregate {
                relation_data.output_field_references = picked;
            } else {
                relation_data.output_field_references.append(&mut picked);
            }
        }
    }

    /// Enters a plan relation: records it at the current location under a free name made
    /// from the name of its kind, carrying the data of a relation of no kind.
    pub fn pre_process_plan_rel(&mut self, obj: &PlanRel)
        ensures
            final(self).spec_symbols() == old(self).spec_symbols().push(
                SymbolInfoView {
                    name: unique_name_for(old(self).spec_symbols(), plan_rel_type_name(*obj)),
                    location: LocationView::Proto(old(self).spec_location()),
                    symbol_type: SymbolType::PlanRelation,
                    subtype: None,
                    blob: Some(
                        BlobView::Relation {
                            pipeline_start: None,
                            continuing_pipeline: None,
                            new_pipelines: Seq::empty(),
                            field_references: Seq::empty(),
                            generated_field_references: Seq::empty(),
                            output_field_references: Seq::empty(),
                            relation: Relation { rel_type: None },
                            root_names: Seq::empty(),
                        },
                    ),
                },
            ),
            final(self).spec_relation_scope() == old(self).spec_relation_scope(),
            final(self).spec_relation_locations() == old(self).spec_relation_locations(),
            final(self).spec_location() == old(self).spec_location(),
    {
        let name = plan_rel_type_case_name(obj);
        let data = RelationData::new(Relation { rel_type: None });
        assert(data.new_pipelines@ =~= Seq::<usize>::empty());
        assert(texts_view(data.root_names@) =~= Seq::<Seq<char>>::empty());
        let unique_name = self.symbol_table.get_unique_name(name);
        self.symbol_table.define_symbol(
            unique_name,
            BoxedLocation::Proto(self.internal_location.duplicate()),
            SymbolType::PlanRelation,
            None,
            Some(SymbolBlob::Relation(data)),
        );
    }

    /// Leaves a relation: records its fields (see `local_schema`), then records it at the
    /// current location under a free name made from the name of its kind, carrying the
    /// relation (connected to nothing yet) and its field lists, and leaves its scope. (The
    /// types of a base schema, and the source and schema a read uses, are not recorded.)
    pub fn post_process_rel(&mut self, obj: &RelationFields)
        ensures
            ({
                let st = local_schema(
                    SchemaState {
                        symbols: old(self).spec_symbols(),
                        fields: Seq::empty(),
                        generated: Seq::empty(),
                        output: Seq::empty(),
                    },
                    old(self).spec_location(),
                    *obj,
                );
                final(self).spec_symbols() == st.symbols.push(
                    SymbolInfoView {
                        name: unique_name_for(st.symbols, rel_type_case_text(obj.relation)),
                        location: LocationView::Proto(old(self).spec_location()),
                        symbol_type: SymbolType::Relation,
                        subtype: None,
                        blob: Some(
                            BlobView::Relation {
                                pipeline_start: None,
                                continuing_pipeline: None,
                                new_pipelines: Seq::empty(),
                                field_references: st.fields,
                                generated_field_references: st.generated,
                                output_field_references: st.output,
                                relation: obj.relation,
                                root_names: Seq::empty(),
                            },
                        ),
                    },
                )
            }),
            final(self).spec_relation_scope() == if old(self).spec_relation_scope().len() > 0 {
                old(self).spec_relation_scope().drop_last()
            } else {
                old(self).spec_relation_scope()
            },
            final(self).spec_relation_locations() == if old(self).spec_relation_locations().len() > 0 {
                old(self).spec_relation_locations().drop_last()
            } else {
                old(self).spec_relation_locations()
            },
            final(self).spec_location() == old(self).spec_location(),
    {
        let mut data = RelationData::new(obj.relation);
        self.update_local_schema(&mut data, obj);
        let name = rel_type_case_name(&obj.relation);
        assert(data.new_pipelines@ =~= Seq::<usize>::empty());
        assert(texts_view(data.root_names@) =~= Seq::<Seq<char>>::empty());
        let unique_name = self.symbol_table.get_unique_name(name);
        self.symbol_table.define_symbol(
            unique_name,
            BoxedLocation::Proto(self.internal_location.duplicate()),
            SymbolType::Relation,
            None,
            Some(SymbolBlob::Relation(data)),
        );
        let ghost scope = self.current_relation_scope@;
        let ghost locations = self.current_relation_locations@;
        self.current_relation_scope.pop();
        self.current_relation_locations.pop();
        proof {
            if scope.len() > 0 {
                assert(texts_view(self.current_relation_scope@) =~= texts_view(scope).drop_last());
            }
            if locations.len() > 0 {
                assert(self.spec_relation_locations() =~= locations.map_values(|l: ProtoLocation| l@).drop_last());
            }
        }
    }

    /// Records an extension space under its URI, with its anchor.
    pub fn post_process_simple_extension_uri(&mut self, obj: &SimpleExtensionUri)
        ensures
            final(self).spec_symbols() == old(self).spec_symbols().push(
                SymbolInfoView {
                    name: obj.uri@,
                    location: field_location(old(self).spec_location(), "uri"@),
                    symbol_type: SymbolType::ExtensionSpace,
                    subtype: None,
                    blob: Some(BlobView::ExtensionSpace(obj.extension_uri_anchor)),
                },
            ),
            final(self).spec_location() == old(self).spec_location(),
            final(self).spec_relation_scope() == old(self).spec_relation_scope(),
            final(self).spec_relation_locations() == old(self).spec_relation_locations(),
    {
        let location = self.internal_location.field("uri");
        self.symbol_table.define_symbol(
            obj.uri.clone(),
            BoxedLocation::Proto(location),
            SymbolType::ExtensionSpace,
            None,
            Some(SymbolBlob::ExtensionSpace(ExtensionSpaceData::new(obj.extension_uri_anchor))),
        );
    }

    /// Records a declared function under a free name made from the part of its name before
    /// the first `:`, with its full name, its extension and its anchor. A declaration of
    /// any other kind is refused.
    pub fn post_process_simple_extension_declaration(&mut self, obj: &SimpleExtensionDeclaration)
        requires
            obj.mapping_type matches Some(m) ==> m is ExtensionFunction,
        ensures
            obj.mapping_type is None ==> final(self).spec_symbols() == old(self).spec_symbols(),
            obj.mapping_type matches Some(MappingType::ExtensionFunction(ef))
                ==> final(self).spec_symbols() == old(self).spec_symbols().push(
                SymbolInfoView {
                    name: unique_name_for(old(self).spec_symbols(), short_name_of(ef.name@)),
                    location: field_location(old(self).spec_location(), "extension_function"@),
                    symbol_type: SymbolType::Function,
                    subtype: None,
                    blob: Some(
                        BlobView::Function {
                            name: ef.name@,
                            extension_uri_reference: Some(ef.extension_uri_reference),
                            anchor: ef.function_anchor,
                        },
                    ),
                },
            ),
            final(self).spec_location() == old(self).spec_location(),
            final(self).spec_relation_scope() == old(self).spec_relation_scope(),
            final(self).spec_relation_locations() == old(self).spec_relation_locations(),
    {
        if let Some(MappingType::ExtensionFunction(ef)) = &obj.mapping_type {
            let unique_name = self.symbol_table.get_unique_name(short_name(ef.name.as_str()));
            let location = self.internal_location.field("extension_function");
            self.symbol_table.define_symbol(
                unique_name,
                BoxedLocation::Proto(location),
                SymbolType::Function,
                None,
                Some(
                    SymbolBlob::Function(
                        FunctionData::new(
                            ef.name.clone(),
                            Some(ef.extension_uri_reference),
                            ef.function_anchor,
                        ),
                    ),
                ),
            );
        }
    }

    /// Records the output names of the plan's root under a free name made from
    /// `root.names`.
    pub fn post_process_rel_root(&mut self, obj: &RelRoot)
        ensures
            final(self).spec_symbols() == old(self).spec_symbols().push(
                SymbolInfoView {
                    name: unique_name_for(old(self).spec_symbols(), ROOT_NAMES@),
                    location: field_location(old(self).spec_location(), "rel_root"@),
                    symbol_type: SymbolType::Root,
                    subtype: Some(SubtypeView::Source(SourceType::Unknown)),
                    blob: Some(BlobView::Names(texts_view(obj.names@))),
                },
            ),
            final(self).spec_location() == old(self).spec_location(),
            final(self).spec_relation_scope() == old(self).spec_relation_scope(),
            final(self).spec_relation_locations() == old(self).spec_relation_locations(),
    {
        let names = copy_texts(obj.names.as_slice());
        let unique_name = self.symbol_table.get_unique_name(ROOT_NAMES);
        let location = self.internal_location.field("rel_root");
        self.symbol_table.define_symbol(
            unique_name,
            BoxedLocation::Proto(location),
            SymbolType::Root,
            Some(SymbolSubtype::Source(SourceType::Unknown)),
            Some(SymbolBlob::Names(names)),
        );
    }
}

} // verus!
