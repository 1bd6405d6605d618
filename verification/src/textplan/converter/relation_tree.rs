//! Relations with the relations that feed them, as the plan builder fills them in, and
//! their form as substrait relations.

use vstd::prelude::*;

use crate::proto::RelType;
use substrait::proto;
use substrait::proto::rel::RelType as Kind;

verus! {

/// A relation with the relations that feed it (`substrait::proto::Rel`, as far as the plan
/// builder fills it in): its kind, whether its common part is set to emit its fields
/// directly, the positions of the fields its common part emits (where there are any, they
/// take the place of direct emission), its one input, its left and right inputs, and its
/// list of inputs.
#[derive(Debug)]
pub struct RelationTree {
    pub kind: Option<RelType>,
    pub direct_emit: bool,
    pub emit: Vec<i32>,
    pub input: Option<Box<RelationTree>>,
    pub left: Option<Box<RelationTree>>,
    pub right: Option<Box<RelationTree>>,
    pub inputs: Vec<RelationTree>,
}

/// The mathematical value of a relation tree.
pub ghost struct TreeView {
    pub kind: Option<RelType>,
    pub direct_emit: bool,
    pub emit: Seq<i32>,
    pub input: Option<Box<TreeView>>,
    pub left: Option<Box<TreeView>>,
    pub right: Option<Box<TreeView>>,
    pub inputs: Seq<TreeView>,
}

/// The value of a relation tree.
pub open spec fn tree_view(t: RelationTree) -> TreeView
    decreases t,
{
    TreeView {
        kind: t.kind,
        direct_emit: t.direct_emit,
        emit: t.emit@,
        input: match t.input {
            Some(b) => Some(Box::new(tree_view(*b))),
            None => None,
        },
        left: match t.left {
            Some(b) => Some(Box::new(tree_view(*b))),
            None => None,
        },
        right: match t.right {
            Some(b) => Some(Box::new(tree_view(*b))),
            None => None,
        },
        inputs: trees_view(t.inputs@),
    }
}

/// The values of a list of relation trees.
pub open spec fn trees_view(s: Seq<RelationTree>) -> Seq<TreeView>
    decreases s,
{
    if s.len() == 0 {
        Seq::empty()
    } else {
        trees_view(s.drop_last()).push(tree_view(s.last()))
    }
}

/// The value of an optional relation tree.
pub open spec fn opt_tree_view(t: Option<RelationTree>) -> Option<TreeView> {
    match t {
        Some(x) => Some(tree_view(x)),
        None => None,
    }
}

/// A relation of this kind fed by nothing, with no common part.
pub open spec fn bare_tree(rel: crate::proto::Relation) -> TreeView {
    TreeView {
        kind: rel.rel_type,
        direct_emit: false,
        emit: Seq::empty(),
        input: None,
        left: None,
        right: None,
        inputs: Seq::empty(),
    }
}

/// A relation of this kind fed by nothing, with no common part.
pub fn bare_relation(rel: crate::proto::Relation) -> (r: RelationTree)
    ensures
        tree_view(r) == bare_tree(rel),
{
    let r = RelationTree {
        kind: rel.rel_type,
        direct_emit: false,
        emit: Vec::new(),
        input: None,
        left: None,
        right: None,
        inputs: Vec::new(),
    };
    assert(trees_view(r.inputs@) =~= Seq::<TreeView>::empty());
    assert(r.emit@ =~= Seq::<i32>::empty());
    r
}

/// The kinds of relation with one input (`input`).
pub open spec fn is_single_input(k: RelType) -> bool {
    k == RelType::Filter || k == RelType::Project || k == RelType::Aggregate || k == RelType::Sort
        || k == RelType::Fetch || k == RelType::ExtensionSingle
}

/// The kinds of relation with a left and a right input.
pub open spec fn is_two_input(k: RelType) -> bool {
    k == RelType::Join || k == RelType::Cross || k == RelType::HashJoin || k == RelType::MergeJoin
}

/// The kinds of relation with a list of inputs.
pub open spec fn is_many_input(k: RelType) -> bool {
    k == RelType::SetOperation || k == RelType::ExtensionMulti
}

#[verifier::external_type_specification]
#[verifier::external_body]
pub struct ExRel(substrait::proto::Rel);

/// The substrait relation of a kind with one input: the kind's relation message with this
/// input and, where `direct` holds, a common part that emits directly, the rest left at its
/// default (a relation with no kind where the kind is not one of these).
pub uninterp spec fn single_input_rel(kind: Option<RelType>, direct: bool, input: Option<proto::Rel>) -> proto::Rel;

/// The substrait relation of a kind with a left and a right input: the kind's relation
/// message with these inputs, the rest left at its default (a relation with no kind where
/// the kind is not one of these).
pub uninterp spec fn two_input_rel(kind: Option<RelType>, left: Option<proto::Rel>, right: Option<proto::Rel>) -> proto::Rel;

/// The substrait relation of a kind with a list of inputs: the kind's relation message with
/// these inputs and, where `direct` holds and the message has one, a common part that emits
/// directly, the rest left at its default (a relation with no kind where the kind is not
/// one of these).
pub uninterp spec fn many_input_rel(kind: Option<RelType>, direct: bool, inputs: Seq<proto::Rel>) -> proto::Rel;

/// The substrait relation of another kind: the kind's relation message at its default (a
/// relation with no kind where there is no kind).
pub uninterp spec fn other_rel(kind: Option<RelType>) -> proto::Rel;

/// Builds a filter or aggregate relation (`FilterRel`, `AggregateRel`) with one input, as
/// `single_input_rel` names it.
#[verifier::external_body]
fn first_single_input_message(kind: Option<RelType>, direct: bool, input: Option<proto::Rel>) -> (r: proto::Rel)
    requires
        kind == Some(RelType::Filter) || kind == Some(RelType::Aggregate),
    ensures
        r == single_input_rel(kind, direct, input),
{
    let common = if direct { Some(proto::RelCommon { emit_kind: Some(proto::rel_common::EmitKind::Direct(proto::rel_common::Direct {})), ..Default::default() }) } else { None };
    let input = input.map(Box::new);
    let rel_type = match kind {
        Some(RelType::Filter) => Some(Kind::Filter(Box::new(proto::FilterRel { common, input, ..Default::default() }))),
        Some(RelType::Aggregate) => Some(Kind::Aggregate(Box::new(proto::AggregateRel { common, input, ..Default::default() }))),
        _ => None,
    };
    proto::Rel { rel_type }
}

/// Builds a sort, fetch or single-input extension relation (`SortRel`, `FetchRel`,
/// `ExtensionSingleRel`) with one input, as `single_input_rel` names it.
#[verifier::external_body]
fn second_single_input_message(kind: Option<RelType>, direct: bool, input: Option<proto::Rel>) -> (r: proto::Rel)
    requires
        kind == Some(RelType::Sort) || kind == Some(RelType::Fetch) || kind == Some(RelType::ExtensionSingle),
    ensures
        r == single_input_rel(kind, direct, input),
{
    let common = if direct { Some(proto::RelCommon { emit_kind: Some(proto::rel_common::EmitKind::Direct(proto::rel_common::Direct {})), ..Default::default() }) } else { None };
    let input = input.map(Box::new);
    let rel_type = match kind {
        Some(RelType::Sort) => Some(Kind::Sort(Box::new(proto::SortRel { common, input, ..Default::default() }))),
        Some(RelType::Fetch) => Some(Kind::Fetch(Box::new(proto::FetchRel { common, input, ..Default::default() }))),
        Some(RelType::ExtensionSingle) => Some(Kind::ExtensionSingle(Box::new(proto::ExtensionSingleRel { common, input, ..Default::default() }))),
        _ => None,
    };
    proto::Rel { rel_type }
}

/// The substrait project relation (`ProjectRel`) with this input and a common part that
/// emits the fields at these positions where there are any, else emits directly where
/// `direct` holds, else has none; the rest left at its default.
pub uninterp spec fn project_rel(direct: bool, emit: Seq<i32>, input: Option<proto::Rel>) -> proto::Rel;

/// Builds a project relation (`ProjectRel`) with one input and its emission, as
/// `project_rel` names it.
#[verifier::external_body]
fn project_message(direct: bool, emit: Vec<i32>, input: Option<proto::Rel>) -> (r: proto::Rel)
    ensures
        r == project_rel(direct, emit@, input),
{
    let kind = if !emit.is_empty() {
        Some(proto::rel_common::EmitKind::Emit(proto::rel_common::Emit { output_mapping: emit }))
    } else if direct {
        Some(proto::rel_common::EmitKind::Direct(proto::rel_common::Direct {}))
    } else {
        None
    };
    let common = kind.map(|emit_kind| proto::RelCommon { emit_kind: Some(emit_kind), ..Default::default() });
    let project = proto::ProjectRel { common, input: input.map(Box::new), ..Default::default() };
    proto::Rel { rel_type: Some(Kind::Project(Box::new(project))) }
}

/// The substrait read relation (`ReadRel`) at its default, with a common part that emits
/// directly where `direct` holds.
pub uninterp spec fn read_rel(direct: bool) -> proto::Rel;

/// Builds a read relation (`ReadRel`), as `read_rel` names it.
#[verifier::external_body]
fn read_message(direct: bool) -> (r: proto::Rel)
    ensures
        r == read_rel(direct),
{
    let common = if direct { Some(proto::RelCommon { emit_kind: Some(proto::rel_common::EmitKind::Direct(proto::rel_common::Direct {})), ..Default::default() }) } else { None };
    proto::Rel { rel_type: Some(Kind::Read(Box::new(proto::ReadRel { common, ..Default::default() }))) }
}

/// Builds a relation with a left and a right input (`JoinRel`, `CrossRel`, `HashJoinRel` or
/// `MergeJoinRel`), as `two_input_rel` names it.
#[verifier::external_body]
fn two_input_message(kind: Option<RelType>, left: Option<proto::Rel>, right: Option<proto::Rel>) -> (r: proto::Rel)
    ensures
        r == two_input_rel(kind, left, right),
{
    let (left, right) = (left.map(Box::new), right.map(Box::new));
    let rel_type = match kind {
        Some(RelType::Join) => Some(Kind::Join(Box::new(proto::JoinRel { left, right, ..Default::default() }))),
        Some(RelType::Cross) => Some(Kind::Cross(Box::new(proto::CrossRel { left, right, ..Default::default() }))),
        Some(RelType::HashJoin) => Some(Kind::HashJoin(Box::new(proto::HashJoinRel { left, right, ..Default::default() }))),
        Some(RelType::MergeJoin) => Some(Kind::MergeJoin(Box::new(proto::MergeJoinRel { left, right, ..Default::default() }))),
        _ => None,
    };
    proto::Rel { rel_type }
}

/// Builds a relation with a list of inputs (`SetRel` or `ExtensionMultiRel`), as
/// `many_input_rel` names it.
#[verifier::external_body]
fn many_input_message(kind: Option<RelType>, direct: bool, inputs: Vec<proto::Rel>) -> (r: proto::Rel)
    ensures
        r == many_input_rel(kind, direct, inputs@),
{
    let common = if direct { Some(proto::RelCommon { emit_kind: Some(proto::rel_common::EmitKind::Direct(proto::rel_common::Direct {})), ..Default::default() }) } else { None };
    let rel_type = match kind {
        Some(RelType::SetOperation) => Some(Kind::Set(proto::SetRel { common, inputs, ..Default::default() })),
        Some(RelType::ExtensionMulti) => Some(Kind::ExtensionMulti(proto::ExtensionMultiRel { common, inputs, ..Default::default() })),
        _ => None,
    };
    proto::Rel { rel_type }
}

/// Builds a leaf extension, write, DDL or update relation (`ExtensionLeafRel`, `WriteRel`,
/// `DdlRel`, `UpdateRel`) at its default, or a relation of no kind, as `other_rel` names it.
#[verifier::external_body]
fn first_other_message(kind: Option<RelType>) -> (r: proto::Rel)
    requires
        kind is None || kind == Some(RelType::ExtensionLeaf) || kind == Some(RelType::Write)
            || kind == Some(RelType::Ddl) || kind == Some(RelType::Update),
    ensures
        r == other_rel(kind),
{
    let rel_type = match kind {
        Some(RelType::ExtensionLeaf) => Some(Kind::ExtensionLeaf(Default::default())),
        Some(RelType::Write) => Some(Kind::Write(Default::default())),
        Some(RelType::Ddl) => Some(Kind::Ddl(Default::default())),
        Some(RelType::Update) => Some(Kind::Update(Default::default())),
        _ => None,
    };
    proto::Rel { rel_type }
}

/// Builds a reference, nested loop join, window, exchange or expand relation
/// (`ReferenceRel`, `NestedLoopJoinRel`, `ConsistentPartitionWindowRel`, `ExchangeRel`,
/// `ExpandRel`) at its default, as `other_rel` names it.
#[verifier::external_body]
fn second_other_message(kind: Option<RelType>) -> (r: proto::Rel)
    requires
        kind == Some(RelType::Reference) || kind == Some(RelType::NestedLoopJoin) || kind == Some(RelType::Window)
            || kind == Some(RelType::Exchange) || kind == Some(RelType::Expand),
    ensures
        r == other_rel(kind),
{
    let rel_type = match kind {
        Some(RelType::Reference) => Some(Kind::Reference(Default::default())),
        Some(RelType::NestedLoopJoin) => Some(Kind::NestedLoopJoin(Default::default())),
        Some(RelType::Window) => Some(Kind::Window(Default::default())),
        Some(RelType::Exchange) => Some(Kind::Exchange(Default::default())),
        Some(RelType::Expand) => Some(Kind::Expand(Default::default())),
        _ => None,
    };
    proto::Rel { rel_type }
}

/// The substrait relation of a relation tree: by its kind, a project with its input and
/// emission, a read with its emission, a relation with its one input, with its left and
/// right inputs, with its list of inputs, or of another kind.
pub open spec fn substrait_rel(t: TreeView) -> proto::Rel
    decreases t,
{
    match t.kind {
        Some(k) => if k == RelType::Project {
            project_rel(t.direct_emit, t.emit, match t.input {
                Some(b) => Some(substrait_rel(*b)),
                None => None,
            })
        } else if k == RelType::Read {
            read_rel(t.direct_emit)
        } else if is_single_input(k) {
            single_input_rel(t.kind, t.direct_emit, match t.input {
                Some(b) => Some(substrait_rel(*b)),
                None => None,
            })
        } else if is_two_input(k) {
            two_input_rel(t.kind, match t.left {
                Some(b) => Some(substrait_rel(*b)),
                None => None,
            }, match t.right {
                Some(b) => Some(substrait_rel(*b)),
                None => None,
            })
        } else if is_many_input(k) {
            many_input_rel(t.kind, t.direct_emit, substrait_rels(t.inputs))
        } else {
            other_rel(t.kind)
        },
        None => other_rel(t.kind),
    }
}

/// The substrait relations of a list of relation trees.
pub open spec fn substrait_rels(s: Seq<TreeView>) -> Seq<proto::Rel>
    decreases s,
{
    if s.len() == 0 {
        Seq::empty()
    } else {
        substrait_rels(s.drop_last()).push(substrait_rel(s.last()))
    }
}

/// The substrait relation of an optional relation tree.
fn optional_message(t: &Option<Box<RelationTree>>) -> (r: Option<proto::Rel>)
    ensures
        r == match *t {
            Some(b) => Some(substrait_rel(tree_view(*b))),
            None => None::<proto::Rel>,
        },
    decreases t,
{
    match t {
        Some(b) => Some(relation_message(b)),
        None => None,
    }
}

/// Builds the substrait relation of a relation tree (see `substrait_rel`).
pub fn relation_message(t: &RelationTree) -> (r: proto::Rel)
    ensures
        r == substrait_rel(tree_view(*t)),
    decreases t,
{
    match t.kind {
        Some(k) => {
            if k == RelType::Project {
                let input = optional_message(&t.input);
                project_message(t.direct_emit, t.emit.clone(), input)
            } else if k == RelType::Read {
                read_message(t.direct_emit)
            } else if k == RelType::Filter || k == RelType::Aggregate {
                let input = optional_message(&t.input);
                first_single_input_message(t.kind, t.direct_emit, input)
            } else if k == RelType::Sort || k == RelType::Fetch || k == RelType::ExtensionSingle {
                let input = optional_message(&t.input);
                second_single_input_message(t.kind, t.direct_emit, input)
            } else if k == RelType::Join || k == RelType::Cross || k == RelType::HashJoin || k == RelType::MergeJoin {
                let left = optional_message(&t.left);
                let right = optional_message(&t.right);
                two_input_message(t.kind, left, right)
            } else if k == RelType::SetOperation || k == RelType::ExtensionMulti {
                let mut inputs: Vec<proto::Rel> = Vec::new();
                let mut i: usize = 0;
                while i < t.inputs.len()
                    invariant
                        i <= t.inputs.len(),
                        inputs@ == substrait_rels(trees_view(t.inputs@.take(i as int))),
                    decreases t.inputs.len() - i,
                {
                    let m = relation_message(&t.inputs[i]);
                    proof {
                        lemma_trees_view_take(t.inputs@, i as int);
                    }
                    inputs.push(m);
                    i += 1;
                }
                assert(t.inputs@.take(i as int) =~= t.inputs@);
                many_input_message(t.kind, t.direct_emit, inputs)
            } else if k == RelType::ExtensionLeaf || k == RelType::Write || k == RelType::Ddl || k == RelType::Update {
                first_other_message(t.kind)
            } else {
                second_other_message(t.kind)
            }
        },
        None => first_other_message(t.kind),
    }
}

/// The values of one more tree of a list are the values so far with its value added.
proof fn lemma_trees_view_take(s: Seq<RelationTree>, i: int)
    requires
        0 <= i < s.len(),
    ensures
        trees_view(s.take(i + 1)) == trees_view(s.take(i)).push(tree_view(s[i])),
        substrait_rels(trees_view(s.take(i + 1))) == substrait_rels(trees_view(s.take(i))).push(substrait_rel(tree_view(s[i]))),
{
    assert(s.take(i + 1).drop_last() =~= s.take(i));
    let v = trees_view(s.take(i)).push(tree_view(s[i]));
    assert(trees_view(s.take(i + 1)) == v);
    assert(v.drop_last() =~= trees_view(s.take(i)));
}

} // verus!
