//! Building a binary Substrait plan from a symbol table: the plan's declarations and
//! roots, and how many fields a relation puts out.

use vstd::prelude::*;

use crate::proto::{plan_encoding, save_plan_to_binary, ExtensionFunction, SimpleExtensionUri};
use crate::textplan::common::text_scan::has_prefix;
use substrait::proto;
use substrait::proto::extensions as ext;
use substrait::proto::extensions::simple_extension_declaration as decl;
use crate::textplan::common::error::TextPlanError;
use crate::textplan::common::text_ops::{concatenated, copy_texts, texts_view};
use crate::textplan::common::text_scan::text_equals;
use crate::textplan::converter::relation_tree::{
    bare_relation, bare_tree, relation_message, substrait_rel, is_many_input, is_single_input, is_two_input, opt_tree_view, trees_view, tree_view,
    RelationTree, TreeView,
};
use crate::proto::{Relation, RelType};
use crate::textplan::symbol_table::{BlobView, SymbolBlob, SymbolInfoView, SymbolTable, SymbolType};

verus! {

/// How a project relation says which fields it puts out (`RelCommon`'s emit kind).
#[derive(Debug, Clone, PartialEq, Eq)]
pub enum EmitKind {
    /// Exactly the listed input positions, in this order.
    Emit(Vec<i32>),
    /// Every input field, then every expression.
    Direct,
}

/// A relation, as far as counting its output fields reads it: its kind, the relations
/// it reads from, and the sizes of the lists that decide its width.
#[derive(Debug, PartialEq, Eq)]
pub enum RelationShape {
    /// A relation with no kind set.
    Unset,
    /// A read; `names` are the names of its base schema, where it has one.
    Read { names: Option<Vec<String>> },
    /// A cross product of two inputs.
    Cross { left: Option<Box<RelationShape>>, right: Option<Box<RelationShape>> },
    /// A filter over one input.
    Filter { input: Option<Box<RelationShape>> },
    /// A projection: its input, its emit kind (absent when it has no common part or no
    /// emit kind) and how many expressions it adds.
    Project { input: Option<Box<RelationShape>>, emit: Option<EmitKind>, expression_count: usize },
    /// An aggregate: the number of grouping expressions of each grouping, in order, and
    /// the number of measures.
    Aggregate { grouping_sizes: Vec<usize>, measure_count: usize },
    /// Any other kind of relation.
    Other,
}

/// The number of fields that a relation puts out: a read, the names of its base schema;
/// a cross product, the sum of both sides; a filter, its input's; a project, its emit
/// list's length, or else its input's plus its expressions; an aggregate, the
/// grouping expressions of its first grouping plus its measures; anything else, none.
/// A missing input counts as putting out no fields.
pub open spec fn output_field_count(rel: RelationShape) -> nat
    decreases rel,
{
    match rel {
        RelationShape::Read { names } => match names {
            Some(n) => n@.len(),
            None => 0,
        },
        RelationShape::Cross { left, right } => {
            let l = match left {
                Some(b) => output_field_count(*b),
                None => 0,
            };
            let r = match right {
                Some(b) => output_field_count(*b),
                None => 0,
            };
            l + r
        },
        RelationShape::Filter { input } => match input {
            Some(b) => output_field_count(*b),
            None => 0,
        },
        RelationShape::Project { input, emit, expression_count } => match emit {
            Some(EmitKind::Emit(mapping)) => mapping@.len(),
            _ => {
                let i = match input {
                    Some(b) => output_field_count(*b),
                    None => 0,
                };
                i + expression_count as nat
            },
        },
        RelationShape::Aggregate { grouping_sizes, measure_count } => {
            let g: nat = if grouping_sizes@.len() > 0 {
                grouping_sizes@[0] as nat
            } else {
                0
            };
            g + measure_count as nat
        },
        RelationShape::Unset => 0,
        RelationShape::Other => 0,
    }
}

fn optional_output_field_count(rel: &Option<Box<RelationShape>>) -> (r: usize)
    requires
        match rel {
            Some(b) => output_field_count(**b) <= usize::MAX,
            None => true,
        },
    ensures
        r == match rel {
            Some(b) => output_field_count(**b),
            None => 0,
        },
    decreases rel,
{
    match rel {
        Some(b) => count_relation_output_fields(b),
        None => 0,
    }
}

/// Counts the fields that a relation puts out (see `output_field_count`).
pub fn count_relation_output_fields(rel: &RelationShape) -> (r: usize)
    requires
        output_field_count(*rel) <= usize::MAX,
    ensures
        r == output_field_count(*rel),
    decreases rel,
{
    match rel {
        RelationShape::Read { names } => match names {
            Some(n) => n.len(),
            None => 0,
        },
        RelationShape::Cross { left, right } => {
            let l = optional_output_field_count(left);
            let r = optional_output_field_count(right);
            l + r
        },
        RelationShape::Filter { input } => optional_output_field_count(input),
        RelationShape::Project { input, emit, expression_count } => match emit {
            Some(EmitKind::Emit(mapping)) => mapping.len(),
            _ => optional_output_field_count(input) + *expression_count,
        },
        RelationShape::Aggregate { grouping_sizes, measure_count } => {
            let g: usize = if grouping_sizes.len() > 0 {
                grouping_sizes[0]
            } else {
                0
            };
            g + *measure_count
        },
        RelationShape::Unset => 0,
        RelationShape::Other => 0,
    }
}

/// The values of a plan that a symbol table gives: its version numbers and producer, the
/// URIs of its extension spaces, the functions it declares and its root relations.
#[derive(Debug)]
pub struct PlanModel {
    pub major_number: u32,
    pub minor_number: u32,
    pub patch_number: u32,
    pub producer: String,
    pub extension_uris: Vec<SimpleExtensionUri>,
    pub extensions: Vec<ExtensionFunction>,
    pub roots: Vec<PlanRoot>,
}

/// A root relation of a plan: the names of its output fields and the relation tree that
/// feeds it, where it has one.
#[derive(Debug)]
pub struct PlanRoot {
    pub names: Vec<String>,
    pub input: Option<RelationTree>,
}

/// The mathematical value of a `PlanModel`: the URIs as (anchor, URI) pairs, the functions as
/// (URI reference, function anchor, name) triples and each root by its output names and the
/// tree that feeds it.
pub ghost struct PlanModelView {
    pub major_number: u32,
    pub minor_number: u32,
    pub patch_number: u32,
    pub producer: Seq<char>,
    pub extension_uris: Seq<(u32, Seq<char>)>,
    pub extensions: Seq<(u32, u32, Seq<char>)>,
    pub roots: Seq<(Seq<Seq<char>>, Option<TreeView>)>,
}

/// The (anchor, URI) pairs of a list of extension URIs.
pub open spec fn uris_view(v: Seq<SimpleExtensionUri>) -> Seq<(u32, Seq<char>)> {
    v.map_values(|u: SimpleExtensionUri| (u.extension_uri_anchor, u.uri@))
}

/// The (URI reference, function anchor, name) triples of a list of extension functions.
pub open spec fn functions_view(v: Seq<ExtensionFunction>) -> Seq<(u32, u32, Seq<char>)> {
    v.map_values(|f: ExtensionFunction| (f.extension_uri_reference, f.function_anchor, f.name@))
}

/// The output names and input tree of each of a list of roots.
pub open spec fn roots_view(v: Seq<PlanRoot>) -> Seq<(Seq<Seq<char>>, Option<TreeView>)> {
    v.map_values(|r: PlanRoot| (texts_view(r.names@), opt_tree_view(r.input)))
}

impl View for PlanModel {
    type V = PlanModelView;

    open spec fn view(&self) -> PlanModelView {
        PlanModelView {
            major_number: self.major_number,
            minor_number: self.minor_number,
            patch_number: self.patch_number,
            producer: self.producer@,
            extension_uris: uris_view(self.extension_uris@),
            extensions: functions_view(self.extensions@),
            roots: roots_view(self.roots@),
        }
    }
}

/// The position of the first entry with this anchor; the length of the list when none has it.
pub open spec fn uri_position(entries: Seq<(u32, Seq<char>)>, anchor: u32) -> int
    decreases entries.len(),
{
    if entries.len() == 0 {
        0
    } else if entries[0].0 == anchor {
        0
    } else {
        1 + uri_position(entries.drop_first(), anchor)
    }
}

/// The entries after recording `uri` for `anchor`: the entry of the anchor gets the new URI
/// where there is one, else the pair is added at the end.
pub open spec fn with_uri(entries: Seq<(u32, Seq<char>)>, anchor: u32, uri: Seq<char>) -> Seq<(u32, Seq<char>)> {
    let p = uri_position(entries, anchor);
    if p < entries.len() {
        entries.update(p, (anchor, uri))
    } else {
        entries.push((anchor, uri))
    }
}

/// The extension URIs that a list of symbols declares: for each anchor of an extension space,
/// in the order the anchors first occur, the name of the last extension space with it.
pub open spec fn declared_uris(symbols: Seq<SymbolInfoView>) -> Seq<(u32, Seq<char>)>
    decreases symbols.len(),
{
    if symbols.len() == 0 {
        Seq::empty()
    } else {
        let prev = declared_uris(symbols.drop_last());
        let s = symbols.last();
        match s.blob {
            Some(BlobView::ExtensionSpace(a)) => if s.symbol_type == SymbolType::ExtensionSpace {
                with_uri(prev, a, s.name)
            } else {
                prev
            },
            _ => prev,
        }
    }
}

/// The functions that a list of symbols declares, in order: for each function symbol with its
/// data, its URI reference (0 where it has none), its anchor and its name.
pub open spec fn declared_functions(symbols: Seq<SymbolInfoView>) -> Seq<(u32, u32, Seq<char>)>
    decreases symbols.len(),
{
    if symbols.len() == 0 {
        Seq::empty()
    } else {
        let prev = declared_functions(symbols.drop_last());
        let s = symbols.last();
        match s.blob {
            Some(BlobView::Function { name, extension_uri_reference, anchor }) => if s.symbol_type
                == SymbolType::Function {
                prev.push(
                    (
                        match extension_uri_reference {
                            Some(u) => u,
                            None => 0u32,
                        },
                        anchor,
                        name,
                    ),
                )
            } else {
                prev
            },
            _ => prev,
        }
    }
}

/// The names of the root symbols of a list of symbols, in order.
pub open spec fn root_symbol_names(symbols: Seq<SymbolInfoView>) -> Seq<Seq<char>>
    decreases symbols.len(),
{
    if symbols.len() == 0 {
        Seq::empty()
    } else {
        let prev = root_symbol_names(symbols.drop_last());
        if symbols.last().symbol_type == SymbolType::Root {
            prev.push(symbols.last().name)
        } else {
            prev
        }
    }
}

/// The root relation that the symbol at position `i` gives, where it is a relation named
/// "root" whose data starts a pipeline at a relation: its root names, and the relation of
/// the first pipeline it starts with the inputs its links give it (see `with_inputs`,
/// starting with no visited positions); or the message of the error met on the way.
pub open spec fn root_entry(t: Seq<SymbolInfoView>, i: int) -> Option<
    Result<(Seq<Seq<char>>, Option<TreeView>), Seq<char>>,
> {
    let s = t[i];
    if s.symbol_type == SymbolType::Relation && s.name == "root"@ {
        match s.blob {
            Some(BlobView::Relation { new_pipelines, root_names, .. }) => if new_pipelines.len() > 0 {
                match relation_data_at(t, new_pipelines[0] as int) {
                    Some(ir) => match with_inputs(t, new_pipelines[0], bare_tree(ir), Seq::empty(), t.len()).0 {
                        Ok(tree) => Some(Ok((root_names, Some(tree)))),
                        Err(e) => Some(Err(e)),
                    },
                    None => None,
                }
            } else {
                None
            },
            _ => None,
        }
    } else {
        None
    }
}

/// The root relations that the first `n` symbols give (see `root_entry`), in order; or the
/// message of the first error met.
pub open spec fn tree_roots(t: Seq<SymbolInfoView>, n: int) -> Result<Seq<(Seq<Seq<char>>, Option<TreeView>)>, Seq<char>>
    decreases n,
{
    if n <= 0 {
        Ok(Seq::empty())
    } else {
        match tree_roots(t, n - 1) {
            Err(e) => Err(e),
            Ok(rs) => match root_entry(t, n - 1) {
                None => Ok(rs),
                Some(Ok(x)) => Ok(rs.push(x)),
                Some(Err(e)) => Err(e),
            },
        }
    }
}

/// The plan that a symbol table describes: version 0.1.0 produced by
/// "Substrait TextPlan Rust", the extension URIs and functions that the symbols declare,
/// a root relation without input named by the root symbols where there are any, and then
/// the root relations that the relations named "root" give (see `tree_roots`); or the
/// message of the error met while building those. (The relations of the trees hold their
/// kind, how they emit and their inputs; see `RelationTree`.)
pub open spec fn plan_of_symbols(symbols: Seq<SymbolInfoView>) -> Result<PlanModelView, Seq<char>> {
    let names = root_symbol_names(symbols);
    match tree_roots(symbols, symbols.len() as int) {
        Err(e) => Err(e),
        Ok(trees) => Ok(
            PlanModelView {
                major_number: 0,
                minor_number: 1,
                patch_number: 0,
                producer: "Substrait TextPlan Rust"@,
                extension_uris: declared_uris(symbols),
                extensions: declared_functions(symbols),
                roots: if names.len() > 0 {
                    seq![(names, None::<TreeView>)] + trees
                } else {
                    trees
                },
            },
        ),
    }
}

/// Once the root relations of the first `k` symbols meet an error, so do those of the first
/// `n`, for any `n` from `k` up.
proof fn lemma_tree_roots_error(t: Seq<SymbolInfoView>, k: int, n: int)
    requires
        0 <= k <= n,
        tree_roots(t, k) is Err,
    ensures
        tree_roots(t, n) == tree_roots(t, k),
    decreases n - k,
{
    if n > k {
        lemma_tree_roots_error(t, k, n - 1);
    }
}

/// Whether a symbol is an extension space with this anchor.
pub open spec fn is_space_with_anchor(s: SymbolInfoView, a: u32) -> bool {
    s.symbol_type == SymbolType::ExtensionSpace && s.blob == Some(BlobView::ExtensionSpace(a))
}

/// Whether the anchors of a list of (anchor, URI) pairs are all different.
pub open spec fn distinct_anchors(entries: Seq<(u32, Seq<char>)>) -> bool {
    forall|i: int, j: int| 0 <= i < j < entries.len() ==> #[trigger] entries[i].0 != #[trigger] entries[j].0
}

/// Whether a list of (anchor, URI) pairs has an entry for this anchor.
pub open spec fn has_anchor(entries: Seq<(u32, Seq<char>)>, a: u32) -> bool {
    exists|i: int| 0 <= i < entries.len() && #[trigger] entries[i].0 == a
}

/// Whether some symbol is an extension space with this anchor.
pub open spec fn some_space_has(symbols: Seq<SymbolInfoView>, a: u32) -> bool {
    exists|k: int| 0 <= k < symbols.len() && #[trigger] is_space_with_anchor(symbols[k], a)
}

/// Whether the symbol at `k` is the last extension space with this anchor.
pub open spec fn is_last_space_with(symbols: Seq<SymbolInfoView>, k: int, a: u32) -> bool {
    &&& 0 <= k < symbols.len()
    &&& is_space_with_anchor(symbols[k], a)
    &&& forall|m: int| k < m < symbols.len() ==> !#[trigger] is_space_with_anchor(symbols[m], a)
}

/// The facts of the first position of an anchor: no entry before it has the anchor, and it
/// holds the anchor where it is within the list.
proof fn lemma_uri_position_facts(entries: Seq<(u32, Seq<char>)>, a: u32)
    ensures
        0 <= uri_position(entries, a) <= entries.len(),
        uri_position(entries, a) < entries.len() ==> entries[uri_position(entries, a)].0 == a,
        forall|i: int| 0 <= i < uri_position(entries, a) ==> entries[i].0 != a,
    decreases entries.len(),
{
    if entries.len() > 0 && entries[0].0 != a {
        let rest = entries.drop_first();
        lemma_uri_position_facts(rest, a);
        assert forall|i: int| 0 <= i < uri_position(entries, a) implies entries[i].0 != a by {
            if i > 0 {
                assert(entries[i] == rest[i - 1]);
            }
        }
    }
}

/// The extension URIs of the plan of a symbol table (see `declared_uris`) have one entry for
/// each anchor of an extension space and no other, and each entry holds the name of the last
/// extension space with its anchor: the URIs that the symbols give by anchor, the later one
/// replacing the earlier.
pub proof fn lemma_declared_uris_by_anchor(symbols: Seq<SymbolInfoView>)
    ensures
        distinct_anchors(declared_uris(symbols)),
        forall|a: u32| has_anchor(declared_uris(symbols), a) <==> some_space_has(symbols, a),
        forall|i: int, k: int|
            0 <= i < declared_uris(symbols).len() && is_last_space_with(symbols, k, declared_uris(symbols)[i].0)
                ==> #[trigger] declared_uris(symbols)[i].1 == #[trigger] symbols[k].name,
    decreases symbols.len(),
{
    if symbols.len() == 0 {
        return;
    }
    let prev_symbols = symbols.drop_last();
    lemma_declared_uris_by_anchor(prev_symbols);
    let prev = declared_uris(prev_symbols);
    let uris = declared_uris(symbols);
    let s = symbols.last();
    let n = symbols.len() - 1;
    assert forall|k: int| 0 <= k < n implies #[trigger] symbols[k] == prev_symbols[k] by {}
    let new_space = match s.blob {
        Some(BlobView::ExtensionSpace(a)) => s.symbol_type == SymbolType::ExtensionSpace,
        _ => false,
    };
    if !new_space {
        assert(uris == prev);
        assert forall|a: u32| has_anchor(uris, a) <==> some_space_has(symbols, a) by {
            if some_space_has(symbols, a) {
                let k = choose|k: int| 0 <= k < symbols.len() && #[trigger] is_space_with_anchor(symbols[k], a);
                assert(k < n);
                assert(is_space_with_anchor(prev_symbols[k], a));
            }
            if some_space_has(prev_symbols, a) {
                let k = choose|k: int| 0 <= k < prev_symbols.len() && #[trigger] is_space_with_anchor(prev_symbols[k], a);
                assert(is_space_with_anchor(symbols[k], a));
            }
        }
        assert forall|i: int, k: int|
            0 <= i < uris.len() && is_last_space_with(symbols, k, uris[i].0) implies #[trigger] uris[i].1 == #[trigger] symbols[k].name by {
            assert(k < n);
            assert(is_last_space_with(prev_symbols, k, prev[i].0));
        }
    } else {
        let a = s.blob->0->ExtensionSpace_0;
        assert(is_space_with_anchor(s, a));
        lemma_uri_position_facts(prev, a);
        let p = uri_position(prev, a);
        assert(uris == with_uri(prev, a, s.name));
        if p < prev.len() {
            assert(uris == prev.update(p, (a, s.name)));
            assert forall|i: int, j: int| 0 <= i < j < uris.len() implies #[trigger] uris[i].0 != #[trigger] uris[j].0 by {
                assert(uris[i].0 == prev[i].0);
                assert(uris[j].0 == prev[j].0);
            }
        } else {
            assert(uris == prev.push((a, s.name)));
            assert forall|i: int, j: int| 0 <= i < j < uris.len() implies #[trigger] uris[i].0 != #[trigger] uris[j].0 by {
                if j == prev.len() {
                    assert(prev[i].0 != a);
                } else {
                    assert(uris[i] == prev[i]);
                    assert(uris[j] == prev[j]);
                }
            }
        }
        assert forall|b: u32| has_anchor(uris, b) <==> some_space_has(symbols, b) by {
            if has_anchor(uris, b) {
                let i = choose|i: int| 0 <= i < uris.len() && #[trigger] uris[i].0 == b;
                if b == a {
                    assert(is_space_with_anchor(symbols[n], b));
                } else {
                    assert(i < prev.len() && prev[i].0 == b);
                    assert(has_anchor(prev, b));
                    assert(some_space_has(prev_symbols, b));
                    let k = choose|k: int| 0 <= k < prev_symbols.len() && #[trigger] is_space_with_anchor(prev_symbols[k], b);
                    assert(symbols[k] == prev_symbols[k]);
                    assert(is_space_with_anchor(symbols[k], b));
                }
            }
            if some_space_has(symbols, b) {
                if b == a {
                    if p < prev.len() {
                        assert(uris[p].0 == b);
                    } else {
                        assert(uris[prev.len() as int].0 == b);
                    }
                } else {
                    let k = choose|k: int| 0 <= k < symbols.len() && #[trigger] is_space_with_anchor(symbols[k], b);
                    assert(k < n);
                    assert(is_space_with_anchor(prev_symbols[k], b));
                    assert(some_space_has(prev_symbols, b));
                    assert(has_anchor(prev, b));
                    let i = choose|i: int| 0 <= i < prev.len() && #[trigger] prev[i].0 == b;
                    if p < prev.len() {
                        assert(i != p);
                    }
                    assert(uris[i] == prev[i]);
                    assert(uris[i].0 == b);
                }
            }
        }
        assert forall|i: int, k: int|
            0 <= i < uris.len() && is_last_space_with(symbols, k, uris[i].0) implies #[trigger] uris[i].1 == #[trigger] symbols[k].name by {
            if uris[i].0 == a {
                assert(k == n);
                if p < prev.len() {
                    assert(i == p);
                } else {
                    assert(i == prev.len());
                }
            } else {
                assert(k < n);
                assert(i < prev.len());
                assert(uris[i] == prev[i]);
                assert(is_last_space_with(prev_symbols, k, prev[i].0));
            }
        }
    }
}

/// The first position of an anchor is the first index that holds it.
proof fn lemma_uri_position(entries: Seq<(u32, Seq<char>)>, anchor: u32, j: int)
    requires
        0 <= j <= entries.len(),
        forall|k: int| 0 <= k < j ==> entries[k].0 != anchor,
        j < entries.len() ==> entries[j].0 == anchor,
    ensures
        uri_position(entries, anchor) == j,
    decreases j,
{
    if j > 0 {
        let rest = entries.drop_first();
        assert forall|k: int| 0 <= k < j - 1 implies rest[k].0 != anchor by {
            assert(rest[k] == entries[k + 1]);
        }
        if j < entries.len() {
            assert(rest[j - 1] == entries[j]);
        }
        lemma_uri_position(rest, anchor, j - 1);
    }
}

/// Records `uri` for `anchor` in a list of extension URIs (see `with_uri`).
fn record_uri(entries: &mut Vec<SimpleExtensionUri>, anchor: u32, uri: String)
    ensures
        uris_view(final(entries)@) == with_uri(uris_view(old(entries)@), anchor, uri@),
{
    let ghost before = uris_view(entries@);
    let mut j: usize = 0;
    while j < entries.len()
        invariant
            j <= entries.len(),
            uris_view(entries@) == before,
            before == uris_view(old(entries)@),
            forall|k: int| 0 <= k < j ==> before[k].0 != anchor,
        decreases entries.len() - j,
    {
        if entries[j].extension_uri_anchor == anchor {
            proof {
                lemma_uri_position(before, anchor, j as int);
            }
            entries.set(j, SimpleExtensionUri { extension_uri_anchor: anchor, uri });
            assert(uris_view(entries@) =~= before.update(j as int, (anchor, uri@)));
            return;
        }
        j = j + 1;
    }
    proof {
        lemma_uri_position(before, anchor, j as int);
    }
    entries.push(SimpleExtensionUri { extension_uri_anchor: anchor, uri });
    assert(uris_view(entries@) =~= before.push((anchor, uri@)));
}

/// Creates the plan that a symbol table describes (see `plan_of_symbols`).
pub fn create_plan_from_symbol_table(symbol_table: &SymbolTable) -> (r: Result<PlanModel, TextPlanError>)
    ensures
        match r {
            Ok(p) => plan_of_symbols(symbol_table@) == Ok::<PlanModelView, Seq<char>>(p@),
            Err(e) => plan_of_symbols(symbol_table@) == Err::<PlanModelView, Seq<char>>(error_text(e)) && e is ProtobufError,
        },
{
    let symbols = symbol_table.symbols();
    let ghost all = symbol_table@;
    let mut extension_uris: Vec<SimpleExtensionUri> = Vec::new();
    let mut extensions: Vec<ExtensionFunction> = Vec::new();
    let mut names: Vec<String> = Vec::new();
    let mut i: usize = 0;
    while i < symbols.len()
        invariant
            i <= symbols.len(),
            symbols@.map_values(|s: crate::textplan::symbol_table::SymbolInfo| s@) == all,
            uris_view(extension_uris@) == declared_uris(all.take(i as int)),
            functions_view(extensions@) == declared_functions(all.take(i as int)),
            texts_view(names@) == root_symbol_names(all.take(i as int)),
        decreases symbols.len() - i,
    {
        let symbol = &symbols[i];
        let ghost prefix = all.take(i as int + 1);
        assert(prefix.drop_last() =~= all.take(i as int));
        assert(prefix.last() == symbol@);
        match symbol.blob() {
            Some(SymbolBlob::ExtensionSpace(d)) => {
                if symbol.symbol_type() == SymbolType::ExtensionSpace {
                    record_uri(&mut extension_uris, d.anchor_reference(), String::from_str(symbol.name()));
                }
            },
            Some(SymbolBlob::Function(d)) => {
                if symbol.symbol_type() == SymbolType::Function {
                    let reference: u32 = match d.extension_uri_reference {
                        Some(u) => u,
                        None => 0,
                    };
                    extensions.push(
                        ExtensionFunction {
                            extension_uri_reference: reference,
                            function_anchor: d.anchor,
                            name: d.name.clone(),
                        },
                    );
                    assert(functions_view(extensions@) =~= declared_functions(prefix));
                }
            },
            _ => {},
        }
        if symbol.symbol_type() == SymbolType::Root {
            names.push(String::from_str(symbol.name()));
            assert(texts_view(names@) =~= root_symbol_names(prefix));
        }
        i = i + 1;
    }
    assert(all.take(symbols.len() as int) =~= all);
    let mut trees: Vec<PlanRoot> = Vec::new();
    assert(roots_view(trees@) =~= Seq::<(Seq<Seq<char>>, Option<TreeView>)>::empty());
    let mut j: usize = 0;
    while j < symbols.len()
        invariant
            j <= symbols.len(),
            symbols@.map_values(|s: crate::textplan::symbol_table::SymbolInfo| s@) == all,
            all == symbol_table@,
            tree_roots(all, j as int) == Ok::<Seq<(Seq<Seq<char>>, Option<TreeView>)>, Seq<char>>(roots_view(trees@)),
        decreases symbols.len() - j,
    {
        let symbol = &symbols[j];
        assert(symbol@ == all[j as int]);
        let ghost before = trees@;
        if symbol.symbol_type() == SymbolType::Relation && text_equals(symbol.name(), "root") {
            if let Some(SymbolBlob::Relation(d)) = symbol.blob() {
                if d.new_pipelines.len() > 0 {
                    let p = d.new_pipelines[0];
                    if let Some(ir) = relation_at_position(symbol_table, p) {
                        let mut tree = bare_relation(ir);
                        let mut visited: Vec<usize> = Vec::new();
                        assert(visited@ =~= Seq::<usize>::empty());
                        match add_inputs_to_relation(symbol_table, p, &mut tree, &mut visited) {
                            Ok(()) => {
                                trees.push(PlanRoot { names: copy_texts(d.root_names.as_slice()), input: Some(tree) });
                                assert(roots_view(trees@) =~= roots_view(before).push(roots_view(trees@).last()));
                            },
                            Err(e) => {
                                proof {
                                    lemma_tree_roots_error(all, j as int + 1, all.len() as int);
                                }
                                return Err(e);
                            },
                        }
                    }
                }
            }
        }
        j = j + 1;
    }
    let mut roots: Vec<PlanRoot> = Vec::new();
    if names.len() > 0 {
        roots.push(PlanRoot { names, input: None });
    }
    let ghost first = roots_view(roots@);
    let ghost added = roots_view(trees@);
    roots.append(&mut trees);
    assert(roots_view(roots@) =~= first + added);
    proof {
        if root_symbol_names(all).len() > 0 {
            assert(first =~= seq![(root_symbol_names(all), None::<TreeView>)]);
        } else {
            assert(first =~= Seq::<(Seq<Seq<char>>, Option<TreeView>)>::empty());
            assert(first + added =~= added);
        }
    }
    let producer = String::from_str("Substrait TextPlan Rust");
    Ok(
        PlanModel {
            major_number: 0,
            minor_number: 1,
            patch_number: 0,
            producer,
            extension_uris,
            extensions,
            roots,
        },
    )
}

/// The substrait plan (`substrait::proto::Plan`) with this version and producer (no git
/// hash), these extension spaces as (anchor, URN) pairs of its `extension_urns` and these
/// function declarations as (URN reference, function anchor, name) triples, every other
/// field left at its default.
pub uninterp spec fn plan_of_declarations(
    major_number: u32,
    minor_number: u32,
    patch_number: u32,
    producer: Seq<char>,
    extension_uris: Seq<(u32, Seq<char>)>,
    extensions: Seq<(u32, u32, Seq<char>)>,
) -> substrait::proto::Plan;

/// The substrait plan `plan` with one root relation (`substrait::proto::RelRoot`) added to
/// its relations for each (output names, input) pair of `roots`, in order.
pub uninterp spec fn plan_with_roots(
    plan: substrait::proto::Plan,
    roots: Seq<(Seq<Seq<char>>, Option<substrait::proto::Rel>)>,
) -> substrait::proto::Plan;

/// The roots with their input trees as substrait relations.
pub open spec fn substrait_roots(rs: Seq<(Seq<Seq<char>>, Option<TreeView>)>) -> Seq<(Seq<Seq<char>>, Option<substrait::proto::Rel>)> {
    rs.map_values(
        |r: (Seq<Seq<char>>, Option<TreeView>)|
            (
                r.0,
                match r.1 {
                    Some(t) => Some(substrait_rel(t)),
                    None => None,
                },
            ),
    )
}

/// The (output names, input) pairs of a list of roots built for a substrait plan.
pub open spec fn root_messages_view(v: Seq<(Vec<String>, Option<substrait::proto::Rel>)>) -> Seq<(Seq<Seq<char>>, Option<substrait::proto::Rel>)> {
    v.map_values(|r: (Vec<String>, Option<substrait::proto::Rel>)| (texts_view(r.0@), r.1))
}

/// The substrait plan that holds the values of a plan model.
pub open spec fn substrait_plan(m: PlanModelView) -> substrait::proto::Plan {
    plan_with_roots(
        plan_of_declarations(
            m.major_number,
            m.minor_number,
            m.patch_number,
            m.producer,
            m.extension_uris,
            m.extensions,
        ),
        substrait_roots(m.roots),
    )
}

/// Builds a substrait plan (`substrait::proto::Plan`, its `Version`, `SimpleExtensionUrn`s and
/// `SimpleExtensionDeclaration`s of extension functions) from these values, field by field
/// (this version of substrait names an extension space by a URN where earlier ones had a URI).
/// The contract claims only that the plan is what `plan_of_declarations` names for them.
#[verifier::external_body]
fn declarations_plan(
    major_number: u32,
    minor_number: u32,
    patch_number: u32,
    producer: &str,
    uris: &[SimpleExtensionUri],
    functions: &[ExtensionFunction],
) -> (r: substrait::proto::Plan)
    ensures
        r == plan_of_declarations(
            major_number,
            minor_number,
            patch_number,
            producer@,
            uris_view(uris@),
            functions_view(functions@),
        ),
{
    let version = Some(proto::Version { major_number, minor_number, patch_number, git_hash: String::new(), producer: producer.to_string() });
    let extension_urns = uris.iter().map(|u| ext::SimpleExtensionUrn { extension_urn_anchor: u.extension_uri_anchor, urn: u.uri.clone() }).collect();
    let extensions = functions.iter().map(|f| ext::SimpleExtensionDeclaration { mapping_type: Some(decl::MappingType::ExtensionFunction(decl::ExtensionFunction { extension_urn_reference: f.extension_uri_reference, function_anchor: f.function_anchor, name: f.name.clone() })) }).collect();
    proto::Plan { version, extension_urns, extensions, ..Default::default() }
}

/// Adds to a substrait plan's relations one `PlanRel` holding a `RelRoot` for each root, with
/// its names and input. The contract claims only that the plan becomes what
/// `plan_with_roots` names.
#[verifier::external_body]
fn add_root_relations(plan: &mut substrait::proto::Plan, roots: Vec<(Vec<String>, Option<substrait::proto::Rel>)>)
    ensures
        *final(plan) == plan_with_roots(*old(plan), root_messages_view(roots@)),
{
    plan.relations.extend(roots.into_iter().map(|(names, input)| proto::PlanRel { rel_type: Some(proto::plan_rel::RelType::Root(proto::RelRoot { names, input })) }));
}

/// Builds the substrait plan of a plan model (see `substrait_plan`).
pub fn plan_from_model(m: &PlanModel) -> (r: substrait::proto::Plan)
    ensures
        r == substrait_plan(m@),
{
    let mut plan = declarations_plan(
        m.major_number,
        m.minor_number,
        m.patch_number,
        m.producer.as_str(),
        m.extension_uris.as_slice(),
        m.extensions.as_slice(),
    );
    let mut roots: Vec<(Vec<String>, Option<substrait::proto::Rel>)> = Vec::new();
    let mut i: usize = 0;
    while i < m.roots.len()
        invariant
            i <= m.roots.len(),
            root_messages_view(roots@) == substrait_roots(roots_view(m.roots@.take(i as int))),
        decreases m.roots.len() - i,
    {
        let root = &m.roots[i];
        let input = match &root.input {
            Some(t) => Some(relation_message(t)),
            None => None,
        };
        let ghost prev = roots@;
        let names = copy_texts(root.names.as_slice());
        roots.push((names, input));
        let ghost x = roots_view(m.roots@.take(i as int));
        let ghost y = roots_view(m.roots@)[i as int];
        assert(y == (texts_view(root.names@), opt_tree_view(root.input)));
        assert(roots_view(m.roots@.take(i as int + 1)) =~= x.push(y));
        assert(root_messages_view(roots@) =~= root_messages_view(prev).push((texts_view(names@), input)));
        assert(substrait_roots(x.push(y)) =~= substrait_roots(x).push(substrait_roots(x.push(y)).last()));
        assert(root_messages_view(roots@) =~= substrait_roots(roots_view(m.roots@.take(i as int + 1))));
        i += 1;
    }
    assert(m.roots@.take(i as int) =~= m.roots@);
    add_root_relations(&mut plan, roots);
    plan
}

/// Saves the plan that a symbol table describes in the binary protobuf encoding: the
/// encoding of `substrait_plan` of it, which succeeds unless it is longer than `isize::MAX`
/// bytes; or the error met while building the plan.
pub fn save_to_binary(symbol_table: &SymbolTable) -> (r: Result<Vec<u8>, TextPlanError>)
    ensures
        match plan_of_symbols(symbol_table@) {
            Err(m) => r matches Err(e) && e is ProtobufError && error_text(e) == m,
            Ok(p) => {
                &&& r is Ok <==> plan_encoding(substrait_plan(p)).len() <= isize::MAX
                &&& r matches Ok(b) ==> b@ == plan_encoding(substrait_plan(p))
                &&& r matches Err(e) ==> e matches TextPlanError::ProtobufError(m) && has_prefix(m@, "Failed to encode Plan: "@)
            },
        },
{
    match create_plan_from_symbol_table(symbol_table) {
        Ok(model) => {
            let plan = plan_from_model(&model);
            save_plan_to_binary(&plan)
        },
        Err(e) => Err(e),
    }
}

/// The relation that the symbol at position `i` stands for, where there is a symbol there
/// and it carries relation data.
pub open spec fn relation_data_at(t: Seq<SymbolInfoView>, i: int) -> Option<Relation> {
    if 0 <= i < t.len() {
        match t[i].blob {
            Some(BlobView::Relation { relation, .. }) => Some(relation),
            _ => None,
        }
    } else {
        None
    }
}

/// The message of the error for a relation symbol without data.
pub open spec fn no_blob_message(name: Seq<char>) -> Seq<char> {
    "Relation symbol '"@ + name + "' has no blob data"@
}

/// The message of the error for a relation symbol whose data is not that of a relation.
pub open spec fn not_relation_message(name: Seq<char>) -> Seq<char> {
    "Relation symbol '"@ + name + "' blob is not RelationData"@
}

/// The kinds of relation whose common part is set to emit directly when their inputs are
/// added (filters, aggregates, sorts, fetches and sets).
pub open spec fn sets_direct_emit(k: RelType) -> bool {
    k == RelType::Filter || k == RelType::Aggregate || k == RelType::Sort || k == RelType::Fetch
        || k == RelType::SetOperation
}

/// The position of the first occurrence of `x` in `s`, if there is one.
pub open spec fn first_position(s: Seq<usize>, x: usize) -> Option<int>
    decreases s.len(),
{
    if s.len() == 0 {
        None
    } else {
        match first_position(s.drop_last(), x) {
            Some(i) => Some(i),
            None => if s.last() == x {
                Some(s.len() - 1)
            } else {
                None
            },
        }
    }
}

/// The position a project emits for an output field: its first position among the fields
/// it makes, counted after the incoming fields; else its first position among the incoming
/// fields; else 0.
pub open spec fn emit_position(f: Seq<usize>, g: Seq<usize>, x: usize) -> i32 {
    match first_position(g, x) {
        Some(i) => (f.len() + i) as i32,
        None => match first_position(f, x) {
            Some(i) => i as i32,
            None => 0i32,
        },
    }
}

/// The emission of a project whose data has incoming fields `f`, made fields `g` and output
/// fields `o`: the positions of the output fields where there are any, else direct.
pub open spec fn with_project_emission(t: TreeView, f: Seq<usize>, g: Seq<usize>, o: Seq<usize>) -> TreeView {
    if o.len() > 0 {
        TreeView { emit: o.map_values(|x: usize| emit_position(f, g, x)), ..t }
    } else {
        TreeView { direct_emit: true, emit: Seq::empty(), ..t }
    }
}

/// The message of an error of the plan builder (all of its errors are protobuf errors).
pub open spec fn error_text(e: TextPlanError) -> Seq<char> {
    match e {
        TextPlanError::ProtobufError(m) => m@,
        _ => Seq::empty(),
    }
}

/// The relation `rel` with the inputs that the pipeline links of the symbol at `s` give
/// it, and the visited positions afterwards; or the message of the error met on the way. A
/// visited symbol adds nothing; else it becomes visited, and: a symbol without data, or
/// with data that is not a relation's, is an error; a relation with one input takes the
/// relation its pipeline continues into (with its own inputs added in turn); one with two
/// inputs takes the first two relations whose pipelines it starts; one with a list of inputs
/// takes all of them, after those it has; filters, aggregates, sorts, fetches, sets and reads
/// emit directly, and a project emits its output fields (see `with_project_emission`). A
/// link to a symbol without relation data adds nothing. The walk goes no deeper than `fuel`
/// levels. (Relation data here holds no source or schema, so a read gets no base schema or
/// named table; and no expressions, so no subqueries are filled in.)
pub open spec fn with_inputs(t: Seq<SymbolInfoView>, s: usize, rel: TreeView, visited: Seq<usize>, fuel: nat) -> (
    Result<TreeView, Seq<char>>,
    Seq<usize>,
)
    decreases fuel, 0nat,
{
    if visited.contains(s) || fuel == 0 || s >= t.len() {
        (Ok(rel), visited)
    } else {
        let v1 = visited.push(s);
        let sym = t[s as int];
        match sym.blob {
            None => (Err(no_blob_message(sym.name)), v1),
            Some(
                BlobView::Relation {
                    continuing_pipeline,
                    new_pipelines,
                    field_references,
                    generated_field_references,
                    output_field_references,
                    ..
                },
            ) => match rel.kind {
                Some(k) => if is_single_input(k) {
                    let rel1 = TreeView { direct_emit: rel.direct_emit || sets_direct_emit(k), ..rel };
                    let (res, v2) = match continuing_pipeline {
                        Some(n) => {
                            let (res, v2) = child_tree(t, n, v1, (fuel - 1) as nat);
                            match res {
                                Ok(Some(c)) => (Ok(TreeView { input: Some(Box::new(c)), ..rel1 }), v2),
                                Ok(None) => (Ok(rel1), v2),
                                Err(e) => (Err(e), v2),
                            }
                        },
                        None => (Ok(rel1), v1),
                    };
                    match res {
                        Ok(r) => if k == RelType::Project {
                            (
                                Ok(with_project_emission(r, field_references, generated_field_references, output_field_references)),
                                v2,
                            )
                        } else {
                            (Ok(r), v2)
                        },
                        Err(e) => (Err(e), v2),
                    }
                } else if k == RelType::Read {
                    (Ok(TreeView { direct_emit: true, ..rel }), v1)
                } else if is_two_input(k) {
                    if new_pipelines.len() >= 2 {
                        let (lres, v2) = child_tree(t, new_pipelines[0], v1, (fuel - 1) as nat);
                        match lres {
                            Err(e) => (Err(e), v2),
                            Ok(l) => {
                                let (rres, v3) = child_tree(t, new_pipelines[1], v2, (fuel - 1) as nat);
                                match rres {
                                    Err(e) => (Err(e), v3),
                                    Ok(r) => (
                                        Ok(
                                            TreeView {
                                                left: match l {
                                                    Some(c) => Some(Box::new(c)),
                                                    None => rel.left,
                                                },
                                                right: match r {
                                                    Some(c) => Some(Box::new(c)),
                                                    None => rel.right,
                                                },
                                                ..rel
                                            },
                                        ),
                                        v3,
                                    ),
                                }
                            },
                        }
                    } else {
                        (Ok(rel), v1)
                    }
                } else if is_many_input(k) {
                    let rel1 = TreeView { direct_emit: rel.direct_emit || sets_direct_emit(k), ..rel };
                    let (res, v2) = child_trees(t, new_pipelines, v1, (fuel - 1) as nat);
                    match res {
                        Ok(cs) => (Ok(TreeView { inputs: rel.inputs + cs, ..rel1 }), v2),
                        Err(e) => (Err(e), v2),
                    }
                } else {
                    (Ok(rel), v1)
                },
                None => (Ok(rel), v1),
            },
            _ => (Err(not_relation_message(sym.name)), v1),
        }
    }
}

/// The relation at a linked position with its inputs added, where the symbol there carries
/// relation data (none where it does not), and the visited positions afterwards.
pub open spec fn child_tree(t: Seq<SymbolInfoView>, n: usize, visited: Seq<usize>, fuel: nat) -> (
    Result<Option<TreeView>, Seq<char>>,
    Seq<usize>,
)
    decreases fuel, 1nat,
{
    match relation_data_at(t, n as int) {
        Some(nr) => {
            let (res, v) = with_inputs(t, n, bare_tree(nr), visited, fuel);
            match res {
                Ok(c) => (Ok(Some(c)), v),
                Err(e) => (Err(e), v),
            }
        },
        None => (Ok(None), visited),
    }
}

/// The relations at linked positions, in order, each with its inputs added (those whose
/// symbol carries no relation data left out), and the visited positions afterwards.
pub open spec fn child_trees(t: Seq<SymbolInfoView>, ps: Seq<usize>, visited: Seq<usize>, fuel: nat) -> (
    Result<Seq<TreeView>, Seq<char>>,
    Seq<usize>,
)
    decreases fuel, ps.len() + 2,
{
    if ps.len() == 0 {
        (Ok(Seq::empty()), visited)
    } else {
        let (res, v) = child_trees(t, ps.drop_last(), visited, fuel);
        match res {
            Err(e) => (Err(e), v),
            Ok(cs) => {
                let (r, v2) = child_tree(t, ps.last(), v, fuel);
                match r {
                    Ok(Some(c)) => (Ok(cs.push(c)), v2),
                    Ok(None) => (Ok(cs), v2),
                    Err(e) => (Err(e), v2),
                }
            },
        }
    }
}

/// The outcome of the plan builder as a value: the tree, or the message of the error.
pub open spec fn tree_outcome(r: Result<(), TextPlanError>, t: TreeView) -> Result<TreeView, Seq<char>> {
    match r {
        Ok(()) => Ok(t),
        Err(e) => Err(error_text(e)),
    }
}

/// The relation that the symbol at position `n` stands for, where it carries relation data.
fn relation_at_position(table: &SymbolTable, n: usize) -> (r: Option<Relation>)
    ensures
        r == relation_data_at(table@, n as int),
{
    let symbols = table.symbols();
    if n >= symbols.len() {
        return None;
    }
    assert(symbols@[n as int]@ == table@[n as int]);
    match symbols[n].blob() {
        Some(SymbolBlob::Relation(d)) => Some(d.relation),
        _ => None,
    }
}

/// The position of the first occurrence of `x` in `s`, if there is one.
fn find_first(s: &Vec<usize>, x: usize) -> (r: Option<usize>)
    ensures
        match r {
            Some(i) => first_position(s@, x) == Some(i as int),
            None => first_position(s@, x) is None,
        },
{
    let mut i: usize = 0;
    while i < s.len()
        invariant
            i <= s.len(),
            first_position(s@.take(i as int), x) is None,
        decreases s.len() - i,
    {
        assert(s@.take(i as int + 1).drop_last() =~= s@.take(i as int));
        if s[i] == x {
            proof {
                lemma_first_position_prefix(s@, x, i as int + 1);
            }
            return Some(i);
        }
        i += 1;
    }
    assert(s@.take(i as int) =~= s@);
    None
}

/// The first position of `x` within a prefix that holds it is its first position overall.
proof fn lemma_first_position_prefix(s: Seq<usize>, x: usize, n: int)
    requires
        0 < n <= s.len(),
        first_position(s.take(n), x) is Some,
    ensures
        first_position(s, x) == first_position(s.take(n), x),
    decreases s.len() - n,
{
    if n < s.len() {
        assert(s.take(n + 1).drop_last() =~= s.take(n));
        lemma_first_position_prefix(s, x, n + 1);
    } else {
        assert(s.take(n) =~= s);
    }
}

/// The positions a project emits for its output fields (see `emit_position`).
fn emit_positions(f: &Vec<usize>, g: &Vec<usize>, o: &Vec<usize>) -> (r: Vec<i32>)
    ensures
        r@ == o@.map_values(|x: usize| emit_position(f@, g@, x)),
{
    let mut r: Vec<i32> = Vec::new();
    let mut i: usize = 0;
    while i < o.len()
        invariant
            i <= o.len(),
            r@ == o@.take(i as int).map_values(|x: usize| emit_position(f@, g@, x)),
        decreases o.len() - i,
    {
        let x = o[i];
        let p: i32 = match find_first(g, x) {
            Some(j) => (f.len() as i128 + j as i128) as i32,
            None => match find_first(f, x) {
                Some(j) => j as i32,
                None => 0,
            },
        };
        r.push(p);
        assert(r@ =~= o@.take(i as int + 1).map_values(|x: usize| emit_position(f@, g@, x)));
        i += 1;
    }
    assert(o@.take(i as int) =~= o@);
    r
}

/// A protobuf error with `prefix`, `name` and `suffix` as its message.
fn named_error(prefix: &str, name: &str, suffix: &str) -> (r: TextPlanError)
    ensures
        r matches TextPlanError::ProtobufError(m) && m@ == prefix@ + name@ + suffix@,
{
    let mut m = concatenated(prefix, name);
    m.append(suffix);
    TextPlanError::ProtobufError(m)
}

/// Once the relations of a prefix of the links meet an error, so do those of all the links,
/// with the same visited positions.
proof fn lemma_child_trees_error_prefix(t: Seq<SymbolInfoView>, ps: Seq<usize>, visited: Seq<usize>, fuel: nat, k: int)
    requires
        0 <= k <= ps.len(),
        child_trees(t, ps.take(k), visited, fuel).0 is Err,
    ensures
        child_trees(t, ps, visited, fuel) == child_trees(t, ps.take(k), visited, fuel),
    decreases ps.len() - k,
{
    if k == ps.len() {
        assert(ps.take(k) =~= ps);
    } else {
        assert(ps.take(k + 1).drop_last() =~= ps.take(k));
        lemma_child_trees_error_prefix(t, ps, visited, fuel, k + 1);
    }
}

/// The values of two lists of trees joined are the values of each, joined.
proof fn lemma_trees_view_concat(a: Seq<RelationTree>, b: Seq<RelationTree>)
    ensures
        trees_view(a + b) == trees_view(a) + trees_view(b),
    decreases b.len(),
{
    if b.len() == 0 {
        assert(a + b =~= a);
        assert(trees_view(a) + trees_view(b) =~= trees_view(a));
    } else {
        lemma_trees_view_concat(a, b.drop_last());
        assert((a + b).drop_last() =~= a + b.drop_last());
        assert((a + b).last() == b.last());
        assert(trees_view(a) + trees_view(b) =~= (trees_view(a) + trees_view(b.drop_last())).push(tree_view(b.last())));
    }
}

/// Adds to `rel` the inputs that the pipeline links of the symbol at `s` give it, going no
/// deeper than `fuel` levels (see `with_inputs`).
fn attach_inputs(table: &SymbolTable, s: usize, rel: &mut RelationTree, visited: &mut Vec<usize>, fuel: usize) -> (r:
    Result<(), TextPlanError>)
    ensures
        with_inputs(table@, s, tree_view(*old(rel)), old(visited)@, fuel as nat) == (tree_outcome(r, tree_view(*final(rel))), final(visited)@),
        r matches Err(e) ==> e is ProtobufError,
    decreases fuel, 0nat,
{
    let ghost t = table@;
    let ghost old_rel = tree_view(*rel);
    let ghost v0 = visited@;
    let symbols = table.symbols();
    let mut seen = false;
    let mut i: usize = 0;
    while i < visited.len()
        invariant
            i <= visited.len(),
            visited@ == v0,
            seen <==> exists|j: int| 0 <= j < i && visited@[j] == s,
        decreases visited.len() - i,
    {
        if visited[i] == s {
            seen = true;
        }
        i += 1;
    }
    assert(seen <==> v0.contains(s));
    if seen || fuel == 0 || s >= symbols.len() {
        return Ok(());
    }
    visited.push(s);
    assert(symbols@[s as int]@ == t[s as int]);
    let symbol = &symbols[s];
    let (continuing, new_pipelines, emit) = match symbol.blob() {
        None => {
            return Err(named_error("Relation symbol '", symbol.name(), "' has no blob data"));
        },
        Some(SymbolBlob::Relation(d)) => (
            d.continuing_pipeline,
            d.new_pipelines.clone(),
            emit_positions(&d.field_references, &d.generated_field_references, &d.output_field_references),
        ),
        Some(_) => {
            return Err(named_error("Relation symbol '", symbol.name(), "' blob is not RelationData"));
        },
    };
    let kind = match rel.kind {
        Some(k) => k,
        None => return Ok(()),
    };
    if kind == RelType::Filter || kind == RelType::Project || kind == RelType::Aggregate || kind == RelType::Sort
        || kind == RelType::Fetch || kind == RelType::ExtensionSingle {
        if kind == RelType::Filter || kind == RelType::Aggregate || kind == RelType::Sort || kind == RelType::Fetch {
            rel.direct_emit = true;
        }
        match continuing {
            Some(n) => match attach_child(table, n, visited, fuel - 1) {
                Ok(Some(c)) => {
                    rel.input = Some(Box::new(c));
                },
                Ok(None) => {},
                Err(e) => return Err(e),
            },
            None => {},
        }
        if kind == RelType::Project {
            if emit.len() > 0 {
                rel.emit = emit;
            } else {
                rel.direct_emit = true;
                rel.emit = Vec::new();
            }
        }
        Ok(())
    } else if kind == RelType::Read {
        rel.direct_emit = true;
        Ok(())
    } else if kind == RelType::Join || kind == RelType::Cross || kind == RelType::HashJoin || kind == RelType::MergeJoin {
        if new_pipelines.len() >= 2 {
            let l = match attach_child(table, new_pipelines[0], visited, fuel - 1) {
                Ok(l) => l,
                Err(e) => return Err(e),
            };
            let r = match attach_child(table, new_pipelines[1], visited, fuel - 1) {
                Ok(r) => r,
                Err(e) => return Err(e),
            };
            if let Some(c) = l {
                rel.left = Some(Box::new(c));
            }
            if let Some(c) = r {
                rel.right = Some(Box::new(c));
            }
        }
        Ok(())
    } else if kind == RelType::SetOperation || kind == RelType::ExtensionMulti {
        if kind == RelType::SetOperation {
            rel.direct_emit = true;
        }
        match attach_children(table, new_pipelines.as_slice(), visited, fuel - 1) {
            Ok(mut cs) => {
                let ghost before = rel.inputs@;
                let ghost added = cs@;
                rel.inputs.append(&mut cs);
                proof {
                    lemma_trees_view_concat(before, added);
                }
                Ok(())
            },
            Err(e) => Err(e),
        }
    } else {
        Ok(())
    }
}

/// The relation at a linked position with its inputs added, where its symbol carries
/// relation data (see `child_tree`).
fn attach_child(table: &SymbolTable, n: usize, visited: &mut Vec<usize>, fuel: usize) -> (r: Result<
    Option<RelationTree>,
    TextPlanError,
>)
    ensures
        child_tree(table@, n, old(visited)@, fuel as nat) == (
            match r {
                Ok(o) => Ok(opt_tree_view(o)),
                Err(e) => Err(error_text(e)),
            },
            final(visited)@,
        ),
        r matches Err(e) ==> e is ProtobufError,
    decreases fuel, 1nat,
{
    match relation_at_position(table, n) {
        Some(nr) => {
            let mut c = bare_relation(nr);
            match attach_inputs(table, n, &mut c, visited, fuel) {
                Ok(()) => Ok(Some(c)),
                Err(e) => Err(e),
            }
        },
        None => Ok(None),
    }
}

/// The relations at linked positions, in order, each with its inputs added (see
/// `child_trees`).
fn attach_children(table: &SymbolTable, ps: &[usize], visited: &mut Vec<usize>, fuel: usize) -> (r: Result<
    Vec<RelationTree>,
    TextPlanError,
>)
    ensures
        child_trees(table@, ps@, old(visited)@, fuel as nat) == (
            match r {
                Ok(cs) => Ok(trees_view(cs@)),
                Err(e) => Err(error_text(e)),
            },
            final(visited)@,
        ),
        r matches Err(e) ==> e is ProtobufError,
    decreases fuel, ps@.len() + 2,
{
    let mut cs: Vec<RelationTree> = Vec::new();
    let mut i: usize = 0;
    while i < ps.len()
        invariant
            i <= ps.len(),
            child_trees(table@, ps@.take(i as int), old(visited)@, fuel as nat) == (Ok::<Seq<TreeView>, Seq<char>>(trees_view(cs@)), visited@),
        decreases ps.len() - i,
    {
        assert(ps@.take(i as int + 1).drop_last() =~= ps@.take(i as int));
        assert(ps@.take(i as int + 1).last() == ps@[i as int]);
        match attach_child(table, ps[i], visited, fuel) {
            Ok(Some(c)) => {
                let ghost before = cs@;
                cs.push(c);
                assert(cs@.drop_last() =~= before);
            },
            Ok(None) => {},
            Err(e) => {
                assert(child_trees(table@, ps@.take(i as int + 1), old(visited)@, fuel as nat).0 == Err::<
                    Seq<TreeView>,
                    Seq<char>,
                >(error_text(e)));
                proof {
                    lemma_child_trees_error_prefix(table@, ps@, old(visited)@, fuel as nat, i as int + 1);
                }
                return Err(e);
            },
        }
        i += 1;
    }
    assert(ps@.take(i as int) =~= ps@);
    Ok(cs)
}

/// Adds to `rel` the inputs that the pipeline links of the symbol at `symbol` give it,
/// following the links down from symbol to symbol and recording each symbol met in
/// `visited`; a symbol met before adds nothing. The walk goes no deeper than the table has
/// symbols (each level meets a new one; see `with_inputs`).
pub fn add_inputs_to_relation(table: &SymbolTable, symbol: usize, rel: &mut RelationTree, visited: &mut Vec<usize>) -> (r:
    Result<(), TextPlanError>)
    ensures
        with_inputs(table@, symbol, tree_view(*old(rel)), old(visited)@, table@.len()) == (
            tree_outcome(r, tree_view(*final(rel))),
            final(visited)@,
        ),
        r matches Err(e) ==> e is ProtobufError,
{
    attach_inputs(table, symbol, rel, visited, table.len())
}

} // verus!
