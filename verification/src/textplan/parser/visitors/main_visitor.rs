//! The pass over a parsed textplan that processes its top-level structures.

use vstd::prelude::*;

use crate::proto::{relation_type_name, Relation, RelType};
use crate::textplan::parser::plan_visitor::relation_type_named;
use crate::textplan::common::location::{BoxedLocation, LocationView};
use crate::textplan::common::structured_symbol_data::{ExtensionSpaceData, FunctionData, RelationData};
use crate::textplan::common::text_ops::{copy_texts, lowercased, texts_view, to_lowercase};
use crate::textplan::common::text_scan::text_equals;
use crate::textplan::common::text_location::TextLocation;
use crate::textplan::common::text_scan::{find, find_char, trim, trimmed};
use crate::textplan::parser::error_listener::{ErrorListener, ParseErrorView};
use crate::textplan::parser::visitors::type_visitor::TypeVisitor;
use crate::textplan::parser::visitors::PlanVisitor;
use crate::textplan::symbol_table::{
    symbol_as_ref,
    symbol_ref_view_opt,
    symbol_view_opt,
    BlobView,
    RelationType,
    SubtypeView,
    SymbolBlob,
    SymbolSubtype,
    SymbolInfo,
    SymbolInfoView,
    SymbolTable,
    SymbolType,
};

verus! {

/// A function of an extension space (`function`): the text of its signature (`name`),
/// where it has one, the text of its alias (`id`), where it has one, and the location
/// where it starts.
#[derive(Debug)]
pub struct FunctionNode {
    pub name: Option<String>,
    pub alias: Option<String>,
    pub start: TextLocation,
}

/// An extension space (`extensionspace`): the text and location of its URI token, where it
/// has one, the location where it starts, and its functions in order.
#[derive(Debug)]
pub struct ExtensionSpaceNode {
    pub uri: Option<(String, TextLocation)>,
    pub start: TextLocation,
    pub functions: Vec<FunctionNode>,
}

/// The kind of read of a source definition (`read_type`): a named table with the text of
/// its name, where it has one, or another kind.
#[derive(Debug)]
pub enum ReadTypeNode {
    NamedTable { id: Option<String> },
    Other,
}

/// A source definition (`source_definition`): its read type, where it has one, and the
/// location where it starts.
#[derive(Debug)]
pub struct SourceDefinitionNode {
    pub read_type: Option<ReadTypeNode>,
    pub start: TextLocation,
}

/// The symbol of an extension space with this anchor.
pub open spec fn extension_space_symbol(ctx: ExtensionSpaceNode, anchor: u32) -> SymbolInfoView {
    SymbolInfoView {
        name: match ctx.uri {
            Some(u) => trimmed(u.0@),
            None => "unnamed_extension_space"@,
        },
        location: LocationView::Text(
            match ctx.uri {
                Some(u) => u.1,
                None => ctx.start,
            },
        ),
        symbol_type: SymbolType::ExtensionSpace,
        subtype: None,
        blob: Some(BlobView::ExtensionSpace(anchor)),
    }
}

/// The name under which a function is known: its alias, or else its signature up to its
/// first colon (`split(':').next()`).
pub open spec fn function_alias(f: FunctionNode, signature: Seq<char>) -> Seq<char> {
    match f.alias {
        Some(a) => a@,
        None => match find_char(signature, ':') {
            Some(i) => signature.take(i),
            None => signature,
        },
    }
}

/// The symbol of a function with this anchor in an extension space with this anchor, where
/// the function has a signature.
pub open spec fn function_symbol(f: FunctionNode, anchor: u32, space: Option<u32>) -> Option<
    SymbolInfoView,
> {
    match f.name {
        Some(signature) => Some(
            SymbolInfoView {
                name: function_alias(f, signature@),
                location: LocationView::Text(f.start),
                symbol_type: SymbolType::Function,
                subtype: None,
                blob: Some(
                    BlobView::Function {
                        name: signature@,
                        extension_uri_reference: space,
                        anchor,
                    },
                ),
            },
        ),
        None => None,
    }
}

/// The symbols of the functions of `fs`, the functions seen before them numbering `seen`:
/// each function with a signature gives one, anchored at its count among all functions.
pub open spec fn function_symbols(fs: Seq<FunctionNode>, seen: int, space: Option<u32>) -> Seq<
    SymbolInfoView,
>
    decreases fs.len(),
{
    if fs.len() == 0 {
        Seq::empty()
    } else {
        function_symbols(fs.drop_last(), seen, space) + match function_symbol(
            fs.last(),
            (seen + fs.len()) as u32,
            space,
        ) {
            Some(v) => seq![v],
            None => Seq::empty(),
        }
    }
}

/// The anchor of the extension space that a symbol is, where it is one.
pub open spec fn space_anchor(s: Option<SymbolInfoView>) -> Option<u32> {
    match s {
        Some(v) => match v.blob {
            Some(BlobView::ExtensionSpace(a)) => Some(a),
            _ => None,
        },
        None => None,
    }
}

/// The symbol of a source definition, where it is a named table with a name.
pub open spec fn source_symbol(ctx: SourceDefinitionNode) -> Option<SymbolInfoView> {
    match ctx.read_type {
        Some(ReadTypeNode::NamedTable { id: Some(name) }) => Some(
            SymbolInfoView {
                name: name@,
                location: LocationView::Text(ctx.start),
                symbol_type: SymbolType::Source,
                subtype: None,
                blob: None,
            },
        ),
        _ => None,
    }
}

/// A relation definition (`relation`): the text of the first id of its reference, where it
/// has one, the text of its type, where it has one, and the location where it starts.
#[derive(Debug)]
pub struct RelationNode {
    pub name: Option<String>,
    pub relation_type: Option<String>,
    pub start: TextLocation,
}

/// A root relation (`root_relation`): the texts of its output names, in order, and the
/// location where it starts.
#[derive(Debug)]
pub struct RootRelationNode {
    pub names: Vec<String>,
    pub start: TextLocation,
}

/// The kind of relation, and the kind of the relation it stands for, that the lower-case
/// text of a relation type names; a text that names no kind gives an unknown relation of
/// no kind.
pub open spec fn relation_kind(t: Seq<char>) -> (RelationType, Option<RelType>) {
    if t == "read"@ {
        (RelationType::Read, Some(RelType::Read))
    } else if t == "project"@ {
        (RelationType::Project, Some(RelType::Project))
    } else if t == "join"@ {
        (RelationType::Join, Some(RelType::Join))
    } else if t == "cross"@ {
        (RelationType::Cross, Some(RelType::Cross))
    } else if t == "fetch"@ {
        (RelationType::Fetch, Some(RelType::Fetch))
    } else if t == "aggregate"@ {
        (RelationType::Aggregate, Some(RelType::Aggregate))
    } else if t == "sort"@ {
        (RelationType::Sort, Some(RelType::Sort))
    } else if t == "filter"@ {
        (RelationType::Filter, Some(RelType::Filter))
    } else if t == "set"@ {
        (RelationType::SetOperation, Some(RelType::SetOperation))
    } else if t == "hash_join"@ {
        (RelationType::HashJoin, Some(RelType::HashJoin))
    } else if t == "merge_join"@ {
        (RelationType::MergeJoin, Some(RelType::MergeJoin))
    } else if t == "exchange"@ {
        (RelationType::Exchange, Some(RelType::Exchange))
    } else if t == "ddl"@ {
        (RelationType::Ddl, Some(RelType::Ddl))
    } else if t == "write"@ {
        (RelationType::Write, Some(RelType::Write))
    } else if t == "extension_leaf"@ {
        (RelationType::ExtensionLeaf, Some(RelType::ExtensionLeaf))
    } else if t == "extension_single"@ {
        (RelationType::ExtensionSingle, Some(RelType::ExtensionSingle))
    } else if t == "extension_multi"@ {
        (RelationType::ExtensionMulti, Some(RelType::ExtensionMulti))
    } else {
        (RelationType::Unknown, None)
    }
}

/// The relation kinds that a relation definition of a textplan can name.
pub open spec fn is_definable_relation_kind(k: RelType) -> bool {
    ||| k == RelType::Read
    ||| k == RelType::Project
    ||| k == RelType::Join
    ||| k == RelType::Cross
    ||| k == RelType::Fetch
    ||| k == RelType::Aggregate
    ||| k == RelType::Sort
    ||| k == RelType::Filter
    ||| k == RelType::SetOperation
    ||| k == RelType::HashJoin
    ||| k == RelType::MergeJoin
    ||| k == RelType::Exchange
    ||| k == RelType::Ddl
    ||| k == RelType::Write
    ||| k == RelType::ExtensionLeaf
    ||| k == RelType::ExtensionSingle
    ||| k == RelType::ExtensionMulti
}

proof fn lemma_kind_named_read()
    ensures
        relation_kind("read"@) == (RelationType::Read, Some(RelType::Read)),
        relation_type_named("read"@) == RelationType::Read,
{
    reveal_strlit("read");
}

proof fn lemma_kind_named_project()
    ensures
        relation_kind("project"@) == (RelationType::Project, Some(RelType::Project)),
        relation_type_named("project"@) == RelationType::Project,
{
    reveal_strlit("project");
    reveal_strlit("read");
    assert("project"@ != "read"@) by {
        assert("project"@.len() != "read"@.len());
    }
}

proof fn lemma_kind_named_join()
    ensures
        relation_kind("join"@) == (RelationType::Join, Some(RelType::Join)),
        relation_type_named("join"@) == RelationType::Join,
{
    reveal_strlit("join");
    reveal_strlit("read");
    assert("join"@ != "read"@) by {
        assert("join"@[0] != "read"@[0]);
    }
    reveal_strlit("project");
    assert("join"@ != "project"@) by {
        assert("join"@.len() != "project"@.len());
    }
}

proof fn lemma_kind_named_cross()
    ensures
        relation_kind("cross"@) == (RelationType::Cross, Some(RelType::Cross)),
        relation_type_named("cross"@) == RelationType::Cross,
{
    reveal_strlit("cross");
    reveal_strlit("read");
    assert("cross"@ != "read"@) by {
        assert("cross"@.len() != "read"@.len());
    }
    reveal_strlit("project");
    assert("cross"@ != "project"@) by {
        assert("cross"@.len() != "project"@.len());
    }
    reveal_strlit("join");
    assert("cross"@ != "join"@) by {
        assert("cross"@.len() != "join"@.len());
    }
}

proof fn lemma_kind_named_fetch()
    ensures
        relation_kind("fetch"@) == (RelationType::Fetch, Some(RelType::Fetch)),
        relation_type_named("fetch"@) == RelationType::Fetch,
{
    reveal_strlit("fetch");
    reveal_strlit("read");
    assert("fetch"@ != "read"@) by {
        assert("fetch"@.len() != "read"@.len());
    }
    reveal_strlit("project");
    assert("fetch"@ != "project"@) by {
        assert("fetch"@.len() != "project"@.len());
    }
    reveal_strlit("join");
    assert("fetch"@ != "join"@) by {
        assert("fetch"@.len() != "join"@.len());
    }
    reveal_strlit("cross");
    assert("fetch"@ != "cross"@) by {
        assert("fetch"@[0] != "cross"@[0]);
    }
}

proof fn lemma_kind_named_aggregate()
    ensures
        relation_kind("aggregate"@) == (RelationType::Aggregate, Some(RelType::Aggregate)),
        relation_type_named("aggregate"@) == RelationType::Aggregate,
{
    reveal_strlit("aggregate");
    reveal_strlit("read");
    assert("aggregate"@ != "read"@) by {
        assert("aggregate"@.len() != "read"@.len());
    }
    reveal_strlit("project");
    assert("aggregate"@ != "project"@) by {
        assert("aggregate"@.len() != "project"@.len());
    }
    reveal_strlit("join");
    assert("aggregate"@ != "join"@) by {
        assert("aggregate"@.len() != "join"@.len());
    }
    reveal_strlit("cross");
    assert("aggregate"@ != "cross"@) by {
        assert("aggregate"@.len() != "cross"@.len());
    }
    reveal_strlit("fetch");
    assert("aggregate"@ != "fetch"@) by {
        assert("aggregate"@.len() != "fetch"@.len());
    }
}

proof fn lemma_kind_named_sort()
    ensures
        relation_kind("sort"@) == (RelationType::Sort, Some(RelType::Sort)),
        relation_type_named("sort"@) == RelationType::Sort,
{
    reveal_strlit("sort");
    reveal_strlit("read");
    assert("sort"@ != "read"@) by {
        assert("sort"@[0] != "read"@[0]);
    }
    reveal_strlit("project");
    assert("sort"@ != "project"@) by {
        assert("sort"@.len() != "project"@.len());
    }
    reveal_strlit("join");
    assert("sort"@ != "join"@) by {
        assert("sort"@[0] != "join"@[0]);
    }
    reveal_strlit("cross");
    assert("sort"@ != "cross"@) by {
        assert("sort"@.len() != "cross"@.len());
    }
    reveal_strlit("fetch");
    assert("sort"@ != "fetch"@) by {
        assert("sort"@.len() != "fetch"@.len());
    }
    reveal_strlit("aggregate");
    assert("sort"@ != "aggregate"@) by {
        assert("sort"@.len() != "aggregate"@.len());
    }
}

proof fn lemma_kind_named_filter()
    ensures
        relation_kind("filter"@) == (RelationType::Filter, Some(RelType::Filter)),
        relation_type_named("filter"@) == RelationType::Filter,
{
    reveal_strlit("filter");
    reveal_strlit("read");
    assert("filter"@ != "read"@) by {
        assert("filter"@.len() != "read"@.len());
    }
    reveal_strlit("project");
    assert("filter"@ != "project"@) by {
        assert("filter"@.len() != "project"@.len());
    }
    reveal_strlit("join");
    assert("filter"@ != "join"@) by {
        assert("filter"@.len() != "join"@.len());
    }
    reveal_strlit("cross");
    assert("filter"@ != "cross"@) by {
        assert("filter"@.len() != "cross"@.len());
    }
    reveal_strlit("fetch");
    assert("filter"@ != "fetch"@) by {
        assert("filter"@.len() != "fetch"@.len());
    }
    reveal_strlit("aggregate");
    assert("filter"@ != "aggregate"@) by {
        assert("filter"@.len() != "aggregate"@.len());
    }
    reveal_strlit("sort");
    assert("filter"@ != "sort"@) by {
        assert("filter"@.len() != "sort"@.len());
    }
}

proof fn lemma_kind_named_set()
    ensures
        relation_kind("set"@) == (RelationType::SetOperation, Some(RelType::SetOperation)),
        relation_type_named("set"@) == RelationType::SetOperation,
{
    reveal_strlit("set");
    reveal_strlit("read");
    assert("set"@ != "read"@) by {
        assert("set"@.len() != "read"@.len());
    }
    reveal_strlit("project");
    assert("set"@ != "project"@) by {
        assert("set"@.len() != "project"@.len());
    }
    reveal_strlit("join");
    assert("set"@ != "join"@) by {
        assert("set"@.len() != "join"@.len());
    }
    reveal_strlit("cross");
    assert("set"@ != "cross"@) by {
        assert("set"@.len() != "cross"@.len());
    }
    reveal_strlit("fetch");
    assert("set"@ != "fetch"@) by {
        assert("set"@.len() != "fetch"@.len());
    }
    reveal_strlit("aggregate");
    assert("set"@ != "aggregate"@) by {
        assert("set"@.len() != "aggregate"@.len());
    }
    reveal_strlit("sort");
    assert("set"@ != "sort"@) by {
        assert("set"@.len() != "sort"@.len());
    }
    reveal_strlit("filter");
    assert("set"@ != "filter"@) by {
        assert("set"@.len() != "filter"@.len());
    }
}

proof fn lemma_kind_named_hash_join()
    ensures
        relation_kind("hash_join"@) == (RelationType::HashJoin, Some(RelType::HashJoin)),
        relation_type_named("hash_join"@) == RelationType::HashJoin,
{
    reveal_strlit("hash_join");
    reveal_strlit("read");
    assert("hash_join"@ != "read"@) by {
        assert("hash_join"@.len() != "read"@.len());
    }
    reveal_strlit("project");
    assert("hash_join"@ != "project"@) by {
        assert("hash_join"@.len() != "project"@.len());
    }
    reveal_strlit("join");
    assert("hash_join"@ != "join"@) by {
        assert("hash_join"@.len() != "join"@.len());
    }
    reveal_strlit("cross");
    assert("hash_join"@ != "cross"@) by {
        assert("hash_join"@.len() != "cross"@.len());
    }
    reveal_strlit("fetch");
    assert("hash_join"@ != "fetch"@) by {
        assert("hash_join"@.len() != "fetch"@.len());
    }
    reveal_strlit("aggregate");
    assert("hash_join"@ != "aggregate"@) by {
        assert("hash_join"@[0] != "aggregate"@[0]);
    }
    reveal_strlit("sort");
    assert("hash_join"@ != "sort"@) by {
        assert("hash_join"@.len() != "sort"@.len());
    }
    reveal_strlit("filter");
    assert("hash_join"@ != "filter"@) by {
        assert("hash_join"@.len() != "filter"@.len());
    }
    reveal_strlit("set");
    assert("hash_join"@ != "set"@) by {
        assert("hash_join"@.len() != "set"@.len());
    }
}

proof fn lemma_kind_named_merge_join()
    ensures
        relation_kind("merge_join"@) == (RelationType::MergeJoin, Some(RelType::MergeJoin)),
        relation_type_named("merge_join"@) == RelationType::MergeJoin,
{
    reveal_strlit("merge_join");
    reveal_strlit("read");
    assert("merge_join"@ != "read"@) by {
        assert("merge_join"@.len() != "read"@.len());
    }
    reveal_strlit("project");
    assert("merge_join"@ != "project"@) by {
        assert("merge_join"@.len() != "project"@.len());
    }
    reveal_strlit("join");
    assert("merge_join"@ != "join"@) by {
        assert("merge_join"@.len() != "join"@.len());
    }
    reveal_strlit("cross");
    assert("merge_join"@ != "cross"@) by {
        assert("merge_join"@.len() != "cross"@.len());
    }
    reveal_strlit("fetch");
    assert("merge_join"@ != "fetch"@) by {
        assert("merge_join"@.len() != "fetch"@.len());
    }
    reveal_strlit("aggregate");
    assert("merge_join"@ != "aggregate"@) by {
        assert("merge_join"@.len() != "aggregate"@.len());
    }
    reveal_strlit("sort");
    assert("merge_join"@ != "sort"@) by {
        assert("merge_join"@.len() != "sort"@.len());
    }
    reveal_strlit("filter");
    assert("merge_join"@ != "filter"@) by {
        assert("merge_join"@.len() != "filter"@.len());
    }
    reveal_strlit("set");
    assert("merge_join"@ != "set"@) by {
        assert("merge_join"@.len() != "set"@.len());
    }
    reveal_strlit("hash_join");
    assert("merge_join"@ != "hash_join"@) by {
        assert("merge_join"@.len() != "hash_join"@.len());
    }
}

proof fn lemma_kind_named_exchange()
    ensures
        relation_kind("exchange"@) == (RelationType::Exchange, Some(RelType::Exchange)),
        relation_type_named("exchange"@) == RelationType::Exchange,
{
    reveal_strlit("exchange");
    reveal_strlit("read");
    assert("exchange"@ != "read"@) by {
        assert("exchange"@.len() != "read"@.len());
    }
    reveal_strlit("project");
    assert("exchange"@ != "project"@) by {
        assert("exchange"@.len() != "project"@.len());
    }
    reveal_strlit("join");
    assert("exchange"@ != "join"@) by {
        assert("exchange"@.len() != "join"@.len());
    }
    reveal_strlit("cross");
    assert("exchange"@ != "cross"@) by {
        assert("exchange"@.len() != "cross"@.len());
    }
    reveal_strlit("fetch");
    assert("exchange"@ != "fetch"@) by {
        assert("exchange"@.len() != "fetch"@.len());
    }
    reveal_strlit("aggregate");
    assert("exchange"@ != "aggregate"@) by {
        assert("exchange"@.len() != "aggregate"@.len());
    }
    reveal_strlit("sort");
    assert("exchange"@ != "sort"@) by {
        assert("exchange"@.len() != "sort"@.len());
    }
    reveal_strlit("filter");
    assert("exchange"@ != "filter"@) by {
        assert("exchange"@.len() != "filter"@.len());
    }
    reveal_strlit("set");
    assert("exchange"@ != "set"@) by {
        assert("exchange"@.len() != "set"@.len());
    }
    reveal_strlit("hash_join");
    assert("exchange"@ != "hash_join"@) by {
        assert("exchange"@.len() != "hash_join"@.len());
    }
    reveal_strlit("merge_join");
    assert("exchange"@ != "merge_join"@) by {
        assert("exchange"@.len() != "merge_join"@.len());
    }
}

proof fn lemma_kind_named_ddl()
    ensures
        relation_kind("ddl"@) == (RelationType::Ddl, Some(RelType::Ddl)),
        relation_type_named("ddl"@) == RelationType::Ddl,
{
    reveal_strlit("ddl");
    reveal_strlit("read");
    assert("ddl"@ != "read"@) by {
        assert("ddl"@.len() != "read"@.len());
    }
    reveal_strlit("project");
    assert("ddl"@ != "project"@) by {
        assert("ddl"@.len() != "project"@.len());
    }
    reveal_strlit("join");
    assert("ddl"@ != "join"@) by {
        assert("ddl"@.len() != "join"@.len());
    }
    reveal_strlit("cross");
    assert("ddl"@ != "cross"@) by {
        assert("ddl"@.len() != "cross"@.len());
    }
    reveal_strlit("fetch");
    assert("ddl"@ != "fetch"@) by {
        assert("ddl"@.len() != "fetch"@.len());
    }
    reveal_strlit("aggregate");
    assert("ddl"@ != "aggregate"@) by {
        assert("ddl"@.len() != "aggregate"@.len());
    }
    reveal_strlit("sort");
    assert("ddl"@ != "sort"@) by {
        assert("ddl"@.len() != "sort"@.len());
    }
    reveal_strlit("filter");
    assert("ddl"@ != "filter"@) by {
        assert("ddl"@.len() != "filter"@.len());
    }
    reveal_strlit("set");
    assert("ddl"@ != "set"@) by {
        assert("ddl"@[0] != "set"@[0]);
    }
    reveal_strlit("hash_join");
    assert("ddl"@ != "hash_join"@) by {
        assert("ddl"@.len() != "hash_join"@.len());
    }
    reveal_strlit("merge_join");
    assert("ddl"@ != "merge_join"@) by {
        assert("ddl"@.len() != "merge_join"@.len());
    }
    reveal_strlit("exchange");
    assert("ddl"@ != "exchange"@) by {
        assert("ddl"@.len() != "exchange"@.len());
    }
}

proof fn lemma_kind_named_write()
    ensures
        relation_kind("write"@) == (RelationType::Write, Some(RelType::Write)),
        relation_type_named("write"@) == RelationType::Write,
{
    reveal_strlit("write");
    reveal_strlit("read");
    assert("write"@ != "read"@) by {
        assert("write"@.len() != "read"@.len());
    }
    reveal_strlit("project");
    assert("write"@ != "project"@) by {
        assert("write"@.len() != "project"@.len());
    }
    reveal_strlit("join");
    assert("write"@ != "join"@) by {
        assert("write"@.len() != "join"@.len());
    }
    reveal_strlit("cross");
    assert("write"@ != "cross"@) by {
        assert("write"@[0] != "cross"@[0]);
    }
    reveal_strlit("fetch");
    assert("write"@ != "fetch"@) by {
        assert("write"@[0] != "fetch"@[0]);
    }
    reveal_strlit("aggregate");
    assert("write"@ != "aggregate"@) by {
        assert("write"@.len() != "aggregate"@.len());
    }
    reveal_strlit("sort");
    assert("write"@ != "sort"@) by {
        assert("write"@.len() != "sort"@.len());
    }
    reveal_strlit("filter");
    assert("write"@ != "filter"@) by {
        assert("write"@.len() != "filter"@.len());
    }
    reveal_strlit("set");
    assert("write"@ != "set"@) by {
        assert("write"@.len() != "set"@.len());
    }
    reveal_strlit("hash_join");
    assert("write"@ != "hash_join"@) by {
        assert("write"@.len() != "hash_join"@.len());
    }
    reveal_strlit("merge_join");
    assert("write"@ != "merge_join"@) by {
        assert("write"@.len() != "merge_join"@.len());
    }
    reveal_strlit("exchange");
    assert("write"@ != "exchange"@) by {
        assert("write"@.len() != "exchange"@.len());
    }
    reveal_strlit("ddl");
    assert("write"@ != "ddl"@) by {
        assert("write"@.len() != "ddl"@.len());
    }
}

proof fn lemma_kind_named_extension_leaf()
    ensures
        relation_kind("extension_leaf"@) == (RelationType::ExtensionLeaf, Some(RelType::ExtensionLeaf)),
        relation_type_named("extension_leaf"@) == RelationType::ExtensionLeaf,
{
    reveal_strlit("extension_leaf");
    reveal_strlit("read");
    assert("extension_leaf"@ != "read"@) by {
        assert("extension_leaf"@.len() != "read"@.len());
    }
    reveal_strlit("project");
    assert("extension_leaf"@ != "project"@) by {
        assert("extension_leaf"@.len() != "project"@.len());
    }
    reveal_strlit("join");
    assert("extension_leaf"@ != "join"@) by {
        assert("extension_leaf"@.len() != "join"@.len());
    }
    reveal_strlit("cross");
    assert("extension_leaf"@ != "cross"@) by {
        assert("extension_leaf"@.len() != "cross"@.len());
    }
    reveal_strlit("fetch");
    assert("extension_leaf"@ != "fetch"@) by {
        assert("extension_leaf"@.len() != "fetch"@.len());
    }
    reveal_strlit("aggregate");
    assert("extension_leaf"@ != "aggregate"@) by {
        assert("extension_leaf"@.len() != "aggregate"@.len());
    }
    reveal_strlit("sort");
    assert("extension_leaf"@ != "sort"@) by {
        assert("extension_leaf"@.len() != "sort"@.len());
    }
    reveal_strlit("filter");
    assert("extension_leaf"@ != "filter"@) by {
        assert("extension_leaf"@.len() != "filter"@.len());
    }
    reveal_strlit("set");
    assert("extension_leaf"@ != "set"@) by {
        assert("extension_leaf"@.len() != "set"@.len());
    }
    reveal_strlit("hash_join");
    assert("extension_leaf"@ != "hash_join"@) by {
        assert("extension_leaf"@.len() != "hash_join"@.len());
    }
    reveal_strlit("merge_join");
    assert("extension_leaf"@ != "merge_join"@) by {
        assert("extension_leaf"@.len() != "merge_join"@.len());
    }
    reveal_strlit("exchange");
    assert("extension_leaf"@ != "exchange"@) by {
        assert("extension_leaf"@.len() != "exchange"@.len());
    }
    reveal_strlit("ddl");
    assert("extension_leaf"@ != "ddl"@) by {
        assert("extension_leaf"@.len() != "ddl"@.len());
    }
    reveal_strlit("write");
    assert("extension_leaf"@ != "write"@) by {
        assert("extension_leaf"@.len() != "write"@.len());
    }
}

proof fn lemma_kind_named_extension_single()
    ensures
        relation_kind("extension_single"@) == (RelationType::ExtensionSingle, Some(RelType::ExtensionSingle)),
        relation_type_named("extension_single"@) == RelationType::ExtensionSingle,
{
    reveal_strlit("extension_single");
    reveal_strlit("read");
    assert("extension_single"@ != "read"@) by {
        assert("extension_single"@.len() != "read"@.len());
    }
    reveal_strlit("project");
    assert("extension_single"@ != "project"@) by {
        assert("extension_single"@.len() != "project"@.len());
    }
    reveal_strlit("join");
    assert("extension_single"@ != "join"@) by {
        assert("extension_single"@.len() != "join"@.len());
    }
    reveal_strlit("cross");
    assert("extension_single"@ != "cross"@) by {
        assert("extension_single"@.len() != "cross"@.len());
    }
    reveal_strlit("fetch");
    assert("extension_single"@ != "fetch"@) by {
        assert("extension_single"@.len() != "fetch"@.len());
    }
    reveal_strlit("aggregate");
    assert("extension_single"@ != "aggregate"@) by {
        assert("extension_single"@.len() != "aggregate"@.len());
    }
    reveal_strlit("sort");
    assert("extension_single"@ != "sort"@) by {
        assert("extension_single"@.len() != "sort"@.len());
    }
    reveal_strlit("filter");
    assert("extension_single"@ != "filter"@) by {
        assert("extension_single"@.len() != "filter"@.len());
    }
    reveal_strlit("set");
    assert("extension_single"@ != "set"@) by {
        assert("extension_single"@.len() != "set"@.len());
    }
    reveal_strlit("hash_join");
    assert("extension_single"@ != "hash_join"@) by {
        assert("extension_single"@.len() != "hash_join"@.len());
    }
    reveal_strlit("merge_join");
    assert("extension_single"@ != "merge_join"@) by {
        assert("extension_single"@.len() != "merge_join"@.len());
    }
    reveal_strlit("exchange");
    assert("extension_single"@ != "exchange"@) by {
        assert("extension_single"@.len() != "exchange"@.len());
    }
    reveal_strlit("ddl");
    assert("extension_single"@ != "ddl"@) by {
        assert("extension_single"@.len() != "ddl"@.len());
    }
    reveal_strlit("write");
    assert("extension_single"@ != "write"@) by {
        assert("extension_single"@.len() != "write"@.len());
    }
    reveal_strlit("extension_leaf");
    assert("extension_single"@ != "extension_leaf"@) by {
        assert("extension_single"@.len() != "extension_leaf"@.len());
    }
}

proof fn lemma_kind_named_extension_multi()
    ensures
        relation_kind("extension_multi"@) == (RelationType::ExtensionMulti, Some(RelType::ExtensionMulti)),
        relation_type_named("extension_multi"@) == RelationType::ExtensionMulti,
{
    reveal_strlit("extension_multi");
    reveal_strlit("read");
    assert("extension_multi"@ != "read"@) by {
        assert("extension_multi"@.len() != "read"@.len());
    }
    reveal_strlit("project");
    assert("extension_multi"@ != "project"@) by {
        assert("extension_multi"@.len() != "project"@.len());
    }
    reveal_strlit("join");
    assert("extension_multi"@ != "join"@) by {
        assert("extension_multi"@.len() != "join"@.len());
    }
    reveal_strlit("cross");
    assert("extension_multi"@ != "cross"@) by {
        assert("extension_multi"@.len() != "cross"@.len());
    }
    reveal_strlit("fetch");
    assert("extension_multi"@ != "fetch"@) by {
        assert("extension_multi"@.len() != "fetch"@.len());
    }
    reveal_strlit("aggregate");
    assert("extension_multi"@ != "aggregate"@) by {
        assert("extension_multi"@.len() != "aggregate"@.len());
    }
    reveal_strlit("sort");
    assert("extension_multi"@ != "sort"@) by {
        assert("extension_multi"@.len() != "sort"@.len());
    }
    reveal_strlit("filter");
    assert("extension_multi"@ != "filter"@) by {
        assert("extension_multi"@.len() != "filter"@.len());
    }
    reveal_strlit("set");
    assert("extension_multi"@ != "set"@) by {
        assert("extension_multi"@.len() != "set"@.len());
    }
    reveal_strlit("hash_join");
    assert("extension_multi"@ != "hash_join"@) by {
        assert("extension_multi"@.len() != "hash_join"@.len());
    }
    reveal_strlit("merge_join");
    assert("extension_multi"@ != "merge_join"@) by {
        assert("extension_multi"@.len() != "merge_join"@.len());
    }
    reveal_strlit("exchange");
    assert("extension_multi"@ != "exchange"@) by {
        assert("extension_multi"@.len() != "exchange"@.len());
    }
    reveal_strlit("ddl");
    assert("extension_multi"@ != "ddl"@) by {
        assert("extension_multi"@.len() != "ddl"@.len());
    }
    reveal_strlit("write");
    assert("extension_multi"@ != "write"@) by {
        assert("extension_multi"@.len() != "write"@.len());
    }
    reveal_strlit("extension_leaf");
    assert("extension_multi"@ != "extension_leaf"@) by {
        assert("extension_multi"@.len() != "extension_leaf"@.len());
    }
    reveal_strlit("extension_single");
    assert("extension_multi"@ != "extension_single"@) by {
        assert("extension_multi"@.len() != "extension_single"@.len());
    }
}

/// Reading the name of a definable relation kind gives that kind back: the relation
/// recorded for the type text that `relation_type_to_string` gives for a relation of kind
/// `k` is of kind `k`, and its relation type is the one that text names.
pub proof fn lemma_relation_kind_reads_its_name(k: RelType)
    requires
        is_definable_relation_kind(k),
    ensures
        relation_kind(relation_type_name(Relation { rel_type: Some(k) })) == (
            relation_type_named(relation_type_name(Relation { rel_type: Some(k) })),
            Some(k),
        ),
        relation_type_named(relation_type_name(Relation { rel_type: Some(k) }))
            != RelationType::Unknown,
{
    match k {
        RelType::Read => lemma_kind_named_read(),
        RelType::Project => lemma_kind_named_project(),
        RelType::Join => lemma_kind_named_join(),
        RelType::Cross => lemma_kind_named_cross(),
        RelType::Fetch => lemma_kind_named_fetch(),
        RelType::Aggregate => lemma_kind_named_aggregate(),
        RelType::Sort => lemma_kind_named_sort(),
        RelType::Filter => lemma_kind_named_filter(),
        RelType::SetOperation => lemma_kind_named_set(),
        RelType::HashJoin => lemma_kind_named_hash_join(),
        RelType::MergeJoin => lemma_kind_named_merge_join(),
        RelType::Exchange => lemma_kind_named_exchange(),
        RelType::Ddl => lemma_kind_named_ddl(),
        RelType::Write => lemma_kind_named_write(),
        RelType::ExtensionLeaf => lemma_kind_named_extension_leaf(),
        RelType::ExtensionSingle => lemma_kind_named_extension_single(),
        RelType::ExtensionMulti => lemma_kind_named_extension_multi(),
        _ => {},
    }
}

/// A named relation definition whose type text is, in any case, the name of a definable
/// relation kind `k` is recorded as a relation symbol carrying a relation of kind `k`, whose
/// name is that type text.
pub proof fn lemma_relation_symbol_carries_named_kind(ctx: RelationNode, k: RelType)
    requires
        is_definable_relation_kind(k),
        ctx.name is Some,
        ctx.relation_type matches Some(t) && lowercased(t@) == relation_type_name(
            Relation { rel_type: Some(k) },
        ),
    ensures
        relation_symbol(ctx) matches Some(s) && s.blob matches Some(
            BlobView::Relation { relation, .. },
        ) && relation.rel_type == Some(k) && relation_type_name(relation) == relation_type_name(
            Relation { rel_type: Some(k) },
        ) && s.subtype == Some(
            SubtypeView::Relation(relation_type_named(relation_type_name(Relation { rel_type: Some(k) }))),
        ),
{
    lemma_relation_kind_reads_its_name(k);
}

/// The kinds that a relation definition's type names, read without regard to case; a
/// definition without a type is an unknown relation of no kind.
pub open spec fn relation_kind_of(ctx: RelationNode) -> (RelationType, Option<RelType>) {
    match ctx.relation_type {
        Some(t) => relation_kind(lowercased(t@)),
        None => (RelationType::Unknown, None),
    }
}

/// The symbol of a relation definition, where its reference has a name: a relation of the
/// kind its type names, carrying the relation it stands for.
pub open spec fn relation_symbol(ctx: RelationNode) -> Option<SymbolInfoView> {
    match ctx.name {
        Some(n) => Some(
            SymbolInfoView {
                name: n@,
                location: LocationView::Text(ctx.start),
                symbol_type: SymbolType::Relation,
                subtype: Some(SubtypeView::Relation(relation_kind_of(ctx).0)),
                blob: Some(
                    BlobView::Relation {
                        pipeline_start: None,
                        continuing_pipeline: None,
                        new_pipelines: Seq::empty(),
                        field_references: Seq::empty(),
                        generated_field_references: Seq::empty(),
                        output_field_references: Seq::empty(),
                        relation: Relation { rel_type: relation_kind_of(ctx).1 },
                        root_names: Seq::empty(),
                    },
                ),
            },
        ),
        None => None,
    }
}

/// The symbol of a root relation: a relation named "root" of the root kind, carrying a
/// relation of no kind and the root's output names.
pub open spec fn root_relation_symbol(ctx: RootRelationNode) -> SymbolInfoView {
    SymbolInfoView {
        name: "root"@,
        location: LocationView::Text(ctx.start),
        symbol_type: SymbolType::Relation,
        subtype: Some(SubtypeView::Relation(RelationType::Root)),
        blob: Some(
            BlobView::Relation {
                pipeline_start: None,
                continuing_pipeline: None,
                new_pipelines: Seq::empty(),
                field_references: Seq::empty(),
                generated_field_references: Seq::empty(),
                output_field_references: Seq::empty(),
                relation: Relation { rel_type: None },
                root_names: texts_view(ctx.names@),
            },
        ),
    }
}

/// The kinds that the lower-case text of a relation type names (see `relation_kind`).
fn relation_kind_of_text(t: &str) -> (r: (RelationType, Option<RelType>))
    ensures
        r == relation_kind(t@),
{
    if text_equals(t, "read") {
        (RelationType::Read, Some(RelType::Read))
    } else if text_equals(t, "project") {
        (RelationType::Project, Some(RelType::Project))
    } else if text_equals(t, "join") {
        (RelationType::Join, Some(RelType::Join))
    } else if text_equals(t, "cross") {
        (RelationType::Cross, Some(RelType::Cross))
    } else if text_equals(t, "fetch") {
        (RelationType::Fetch, Some(RelType::Fetch))
    } else if text_equals(t, "aggregate") {
        (RelationType::Aggregate, Some(RelType::Aggregate))
    } else if text_equals(t, "sort") {
        (RelationType::Sort, Some(RelType::Sort))
    } else if text_equals(t, "filter") {
        (RelationType::Filter, Some(RelType::Filter))
    } else if text_equals(t, "set") {
        (RelationType::SetOperation, Some(RelType::SetOperation))
    } else if text_equals(t, "hash_join") {
        (RelationType::HashJoin, Some(RelType::HashJoin))
    } else if text_equals(t, "merge_join") {
        (RelationType::MergeJoin, Some(RelType::MergeJoin))
    } else if text_equals(t, "exchange") {
        (RelationType::Exchange, Some(RelType::Exchange))
    } else if text_equals(t, "ddl") {
        (RelationType::Ddl, Some(RelType::Ddl))
    } else if text_equals(t, "write") {
        (RelationType::Write, Some(RelType::Write))
    } else if text_equals(t, "extension_leaf") {
        (RelationType::ExtensionLeaf, Some(RelType::ExtensionLeaf))
    } else if text_equals(t, "extension_single") {
        (RelationType::ExtensionSingle, Some(RelType::ExtensionSingle))
    } else if text_equals(t, "extension_multi") {
        (RelationType::ExtensionMulti, Some(RelType::ExtensionMulti))
    } else {
        (RelationType::Unknown, None)
    }
}

/// The pass that processes the top-level plan structure: relations, sources, schemas,
/// extension spaces and functions. It builds on the type pass.
pub struct MainPlanVisitor {
    type_visitor: TypeVisitor,
    current_relation_scope: Option<SymbolInfo>,
    current_source_scope: Option<SymbolInfo>,
    current_extension_space: Option<SymbolInfo>,
    num_spaces_seen: i32,
    num_functions_seen: i32,
}

impl MainPlanVisitor {
    /// The symbols of the visitor's table.
    pub closed spec fn spec_symbols(&self) -> Seq<SymbolInfoView> {
        self.type_visitor.spec_symbols()
    }

    /// The errors reported so far.
    pub closed spec fn spec_errors(&self) -> Seq<ParseErrorView> {
        self.type_visitor.spec_errors()
    }

    /// The relation being processed, if any.
    pub closed spec fn spec_relation_scope(&self) -> Option<SymbolInfoView> {
        symbol_view_opt(self.current_relation_scope)
    }

    /// The source being processed, if any.
    pub closed spec fn spec_source_scope(&self) -> Option<SymbolInfoView> {
        symbol_view_opt(self.current_source_scope)
    }

    /// Creates a new MainPlanVisitor.
    pub fn new(symbol_table: SymbolTable, error_listener: ErrorListener) -> (r: Self)
        ensures
            r.spec_symbols() == symbol_table@,
            r.spec_errors() == error_listener@,
            r.spec_relation_scope() is None,
            r.spec_source_scope() is None,
    {
        Self {
            type_visitor: TypeVisitor::new(symbol_table, error_listener),
            current_relation_scope: None,
            current_source_scope: None,
            current_extension_space: None,
            num_spaces_seen: 0,
            num_functions_seen: 0,
        }
    }

    /// Gets the current relation scope, if any.
    pub fn current_relation_scope(&self) -> (r: Option<&SymbolInfo>)
        ensures
            symbol_ref_view_opt(r) == self.spec_relation_scope(),
    {
        symbol_as_ref(&self.current_relation_scope)
    }

    /// Sets the current relation scope.
    pub fn set_current_relation_scope(&mut self, scope: Option<SymbolInfo>)
        ensures
            final(self).spec_relation_scope() == symbol_view_opt(scope),
            final(self).spec_source_scope() == old(self).spec_source_scope(),
            final(self).spec_symbols() == old(self).spec_symbols(),
            final(self).spec_errors() == old(self).spec_errors(),
    {
        self.current_relation_scope = scope;
    }

    /// Gets the current source scope, if any.
    pub fn current_source_scope(&self) -> (r: Option<&SymbolInfo>)
        ensures
            symbol_ref_view_opt(r) == self.spec_source_scope(),
    {
        symbol_as_ref(&self.current_source_scope)
    }

    /// Sets the current source scope.
    pub fn set_current_source_scope(&mut self, scope: Option<SymbolInfo>)
        ensures
            final(self).spec_source_scope() == symbol_view_opt(scope),
            final(self).spec_relation_scope() == old(self).spec_relation_scope(),
            final(self).spec_symbols() == old(self).spec_symbols(),
            final(self).spec_errors() == old(self).spec_errors(),
    {
        self.current_source_scope = scope;
    }

    /// Gets the error listener for this visitor.
    pub fn get_error_listener(&self) -> (r: &ErrorListener)
        ensures
            r@ == self.spec_errors(),
    {
        self.type_visitor.error_listener()
    }

    /// Gets the symbol table for this visitor.
    pub fn get_symbol_table(&self) -> (r: SymbolTable)
        ensures
            r@ == self.spec_symbols(),
    {
        self.type_visitor.symbol_table()
    }

    /// Adds an error message, at the location of the token it is about.
    pub fn add_error(&mut self, location: TextLocation, message: &str)
        ensures
            final(self).spec_errors() == old(self).spec_errors().push(
                ParseErrorView { message: message@, location },
            ),
            final(self).spec_symbols() == old(self).spec_symbols(),
    {
        self.type_visitor.add_error(location, message);
    }

    /// The extension space being processed, if any.
    pub closed spec fn spec_extension_space(&self) -> Option<SymbolInfoView> {
        symbol_view_opt(self.current_extension_space)
    }

    /// The number of extension spaces seen so far.
    pub closed spec fn spec_spaces_seen(&self) -> int {
        self.num_spaces_seen as int
    }

    /// The number of functions seen so far.
    pub closed spec fn spec_functions_seen(&self) -> int {
        self.num_functions_seen as int
    }

    /// Process an extension space and add it to the symbol table.
    fn process_extension_space(&mut self, ctx: &ExtensionSpaceNode) -> (r: Option<SymbolInfo>)
        ensures
            r matches Some(s) && s@ == extension_space_symbol(*ctx, old(self).num_spaces_seen as u32),
            final(self).spec_symbols() == old(self).spec_symbols().push(
                extension_space_symbol(*ctx, old(self).num_spaces_seen as u32),
            ),
            final(self).spec_errors() == old(self).spec_errors(),
            final(self).current_relation_scope == old(self).current_relation_scope,
            final(self).current_source_scope == old(self).current_source_scope,
            final(self).current_extension_space == old(self).current_extension_space,
            final(self).num_spaces_seen == old(self).num_spaces_seen,
            final(self).num_functions_seen == old(self).num_functions_seen,
    {
        proof {
            reveal_strlit("unnamed_extension_space");
        }
        let (name, location) = match &ctx.uri {
            Some((text, location)) => (String::from_str(trim(text.as_str())), *location),
            None => (String::from_str("unnamed_extension_space"), ctx.start),
        };
        let anchor = self.num_spaces_seen as u32;
        let blob = Some(SymbolBlob::ExtensionSpace(ExtensionSpaceData::new(anchor)));
        let symbol = self.type_visitor.symbol_table_mut().define_symbol(
            name,
            BoxedLocation::Text(location),
            SymbolType::ExtensionSpace,
            None,
            blob,
        );
        Some(symbol)
    }

    /// Process a function definition and add it to the symbol table.
    fn process_function(&mut self, ctx: &FunctionNode) -> (r: Option<SymbolInfo>)
        ensures
            r matches Some(s) ==> Some(s@) == function_symbol(
                *ctx,
                old(self).num_functions_seen as u32,
                space_anchor(old(self).spec_extension_space()),
            ),
            r is None <==> ctx.name is None,
            final(self).spec_symbols() == old(self).spec_symbols() + match function_symbol(
                *ctx,
                old(self).num_functions_seen as u32,
                space_anchor(old(self).spec_extension_space()),
            ) {
                Some(v) => seq![v],
                None => Seq::empty(),
            },
            final(self).spec_errors() == old(self).spec_errors(),
            final(self).current_relation_scope == old(self).current_relation_scope,
            final(self).current_source_scope == old(self).current_source_scope,
            final(self).current_extension_space == old(self).current_extension_space,
            final(self).num_spaces_seen == old(self).num_spaces_seen,
            final(self).num_functions_seen == old(self).num_functions_seen,
    {
        let full_name = match &ctx.name {
            Some(n) => n,
            None => {
                assert(old(self).spec_symbols() + Seq::<SymbolInfoView>::empty() =~= old(self).spec_symbols());
                return None;
            },
        };
        let alias = match &ctx.alias {
            Some(a) => a.clone(),
            None => {
                match find(full_name.as_str(), ':') {
                    Some(i) => String::from_str(full_name.as_str().substring_char(0, i)),
                    None => full_name.clone(),
                }
            },
        };
        let anchor = self.num_functions_seen as u32;
        let extension_uri_reference = match &self.current_extension_space {
            Some(space) => match space.blob() {
                Some(SymbolBlob::ExtensionSpace(data)) => Some(data.anchor_reference()),
                _ => None,
            },
            None => None,
        };
        let function_data = FunctionData::new(full_name.clone(), extension_uri_reference, anchor);
        let symbol = self.type_visitor.symbol_table_mut().define_symbol(
            alias,
            BoxedLocation::Text(ctx.start),
            SymbolType::Function,
            None,
            Some(SymbolBlob::Function(function_data)),
        );
        Some(symbol)
    }

    /// Process a relation definition: adds its symbol (see `relation_symbol`) to the symbol
    /// table and makes it the current relation scope. A definition whose reference has no
    /// name changes nothing.
    pub fn process_relation(&mut self, ctx: &RelationNode) -> (r: Option<SymbolInfo>)
        ensures
            symbol_view_opt(r) == relation_symbol(*ctx),
            final(self).spec_symbols() == old(self).spec_symbols() + match relation_symbol(*ctx) {
                Some(v) => seq![v],
                None => Seq::empty(),
            },
            final(self).spec_relation_scope() == match relation_symbol(*ctx) {
                Some(v) => Some(v),
                None => old(self).spec_relation_scope(),
            },
            final(self).spec_errors() == old(self).spec_errors(),
            final(self).spec_source_scope() == old(self).spec_source_scope(),
            final(self).spec_extension_space() == old(self).spec_extension_space(),
            final(self).spec_spaces_seen() == old(self).spec_spaces_seen(),
            final(self).spec_functions_seen() == old(self).spec_functions_seen(),
    {
        let name = match &ctx.name {
            Some(n) => n.clone(),
            None => {
                assert(old(self).spec_symbols() + Seq::<SymbolInfoView>::empty() =~= old(self).spec_symbols());
                return None;
            },
        };
        let kinds = match &ctx.relation_type {
            Some(t) => {
                let lower = to_lowercase(t.as_str());
                relation_kind_of_text(lower.as_str())
            },
            None => (RelationType::Unknown, None),
        };
        assert(kinds == relation_kind_of(*ctx));
        let data = RelationData::new(Relation { rel_type: kinds.1 });
        assert(texts_view(data.root_names@) =~= Seq::<Seq<char>>::empty());
        assert(data.new_pipelines@ =~= Seq::<usize>::empty());
        let blob = Some(SymbolBlob::Relation(data));
        let symbol = self.type_visitor.symbol_table_mut().define_symbol(
            name,
            BoxedLocation::Text(ctx.start),
            SymbolType::Relation,
            Some(SymbolSubtype::Relation(kinds.0)),
            blob,
        );
        assert(old(self).spec_symbols() + seq![symbol@] =~= old(self).spec_symbols().push(symbol@));
        self.current_relation_scope = Some(symbol.duplicate());
        Some(symbol)
    }

    /// Process a root relation: adds a relation symbol named "root" of the root kind,
    /// carrying the root's output names, and makes it the current relation scope.
    pub fn process_root_relation(&mut self, ctx: &RootRelationNode) -> (r: SymbolInfo)
        ensures
            r@ == root_relation_symbol(*ctx),
            final(self).spec_symbols() == old(self).spec_symbols().push(root_relation_symbol(*ctx)),
            final(self).spec_relation_scope() == Some(root_relation_symbol(*ctx)),
            final(self).spec_errors() == old(self).spec_errors(),
            final(self).spec_source_scope() == old(self).spec_source_scope(),
            final(self).spec_extension_space() == old(self).spec_extension_space(),
            final(self).spec_spaces_seen() == old(self).spec_spaces_seen(),
            final(self).spec_functions_seen() == old(self).spec_functions_seen(),
    {
        let mut data = RelationData::new(Relation { rel_type: None });
        data.root_names = copy_texts(ctx.names.as_slice());
        assert(data.new_pipelines@ =~= Seq::<usize>::empty());
        let symbol = self.type_visitor.symbol_table_mut().define_symbol(
            String::from_str("root"),
            BoxedLocation::Text(ctx.start),
            SymbolType::Relation,
            Some(SymbolSubtype::Relation(RelationType::Root)),
            Some(SymbolBlob::Relation(data)),
        );
        self.current_relation_scope = Some(symbol.duplicate());
        symbol
    }

    /// Process a source definition and add it to the symbol table.
    pub fn process_source_definition(&mut self, ctx: &SourceDefinitionNode) -> (r: Option<SymbolInfo>)
        ensures
            symbol_view_opt(r) == source_symbol(*ctx),
            final(self).spec_symbols() == old(self).spec_symbols() + match source_symbol(*ctx) {
                Some(v) => seq![v],
                None => Seq::empty(),
            },
            final(self).spec_errors() == old(self).spec_errors(),
            final(self).spec_relation_scope() == old(self).spec_relation_scope(),
            final(self).spec_source_scope() == old(self).spec_source_scope(),
    {
        match &ctx.read_type {
            Some(ReadTypeNode::NamedTable { id: Some(name) }) => {
                let symbol = self.type_visitor.symbol_table_mut().define_symbol(
                    name.clone(),
                    BoxedLocation::Text(ctx.start),
                    SymbolType::Source,
                    None,
                    None,
                );
                Some(symbol)
            },
            _ => {
                assert(old(self).spec_symbols() + Seq::<SymbolInfoView>::empty() =~= old(self).spec_symbols());
                None
            },
        }
    }

    /// Visits a function: counts it and adds it to the symbol table.
    pub fn visit_function(&mut self, ctx: &FunctionNode)
        requires
            old(self).spec_functions_seen() < i32::MAX,
            old(self).spec_functions_seen() >= 0,
        ensures
            final(self).spec_functions_seen() == old(self).spec_functions_seen() + 1,
            final(self).spec_spaces_seen() == old(self).spec_spaces_seen(),
            final(self).spec_symbols() == old(self).spec_symbols() + function_symbols(
                seq![*ctx],
                old(self).spec_functions_seen(),
                space_anchor(old(self).spec_extension_space()),
            ),
            final(self).spec_errors() == old(self).spec_errors(),
            final(self).spec_extension_space() == old(self).spec_extension_space(),
            final(self).spec_relation_scope() == old(self).spec_relation_scope(),
            final(self).spec_source_scope() == old(self).spec_source_scope(),
    {
        let ghost old_symbols = self.spec_symbols();
        self.num_functions_seen += 1;
        self.process_function(ctx);
        proof {
            let fs = seq![*ctx];
            assert(fs.drop_last() =~= Seq::<FunctionNode>::empty());
            assert(fs.last() == *ctx);
            assert(function_symbols(fs.drop_last(), old(self).spec_functions_seen(), space_anchor(old(self).spec_extension_space())) == Seq::<SymbolInfoView>::empty());
            assert(Seq::<SymbolInfoView>::empty() + match function_symbol(*ctx, self.num_functions_seen as u32, space_anchor(old(self).spec_extension_space())) {
                Some(v) => seq![v],
                None => Seq::empty(),
            } =~= match function_symbol(*ctx, self.num_functions_seen as u32, space_anchor(old(self).spec_extension_space())) {
                Some(v) => seq![v],
                None => Seq::empty(),
            });
        }
    }

    /// Visits an extension space: counts it, adds it to the symbol table, and visits its
    /// functions with it as the current extension space.
    pub fn visit_extensionspace(&mut self, ctx: &ExtensionSpaceNode)
        requires
            0 <= old(self).spec_spaces_seen() < i32::MAX,
            0 <= old(self).spec_functions_seen(),
            old(self).spec_functions_seen() + ctx.functions@.len() <= i32::MAX,
        ensures
            final(self).spec_spaces_seen() == old(self).spec_spaces_seen() + 1,
            final(self).spec_functions_seen() == old(self).spec_functions_seen() + ctx.functions@.len(),
            final(self).spec_symbols() == old(self).spec_symbols().push(
                extension_space_symbol(*ctx, (old(self).spec_spaces_seen() + 1) as u32),
            ) + function_symbols(
                ctx.functions@,
                old(self).spec_functions_seen(),
                Some((old(self).spec_spaces_seen() + 1) as u32),
            ),
            final(self).spec_errors() == old(self).spec_errors(),
            final(self).spec_extension_space() == old(self).spec_extension_space(),
            final(self).spec_relation_scope() == old(self).spec_relation_scope(),
            final(self).spec_source_scope() == old(self).spec_source_scope(),
    {
        self.num_spaces_seen += 1;
        let extension_space_symbol = self.process_extension_space(ctx);
        let mut old_extension_space = extension_space_symbol;
        core::mem::swap(&mut old_extension_space, &mut self.current_extension_space);
        let ghost base = self.spec_symbols();
        let ghost seen = old(self).spec_functions_seen();
        let ghost space = Some((old(self).spec_spaces_seen() + 1) as u32);
        assert(space_anchor(self.spec_extension_space()) == space);
        let mut i: usize = 0;
        assert(ctx.functions@.take(0) =~= Seq::<FunctionNode>::empty());
        assert(base + function_symbols(ctx.functions@.take(0), seen, space) =~= base);
        while i < ctx.functions.len()
            invariant
                i <= ctx.functions@.len(),
                seen + ctx.functions@.len() <= i32::MAX,
                0 <= seen,
                self.spec_functions_seen() == seen + i,
                space_anchor(self.spec_extension_space()) == space,
                self.spec_symbols() == base + function_symbols(ctx.functions@.take(i as int), seen, space),
                self.spec_errors() == old(self).spec_errors(),
                self.spec_spaces_seen() == old(self).spec_spaces_seen() + 1,
                self.spec_relation_scope() == old(self).spec_relation_scope(),
                self.spec_source_scope() == old(self).spec_source_scope(),
            decreases ctx.functions.len() - i,
        {
            let ghost before = self.spec_symbols();
            self.visit_function(&ctx.functions[i]);
            proof {
                let t = ctx.functions@.take(i + 1);
                assert(t.drop_last() =~= ctx.functions@.take(i as int));
                assert(t.last() == ctx.functions@[i as int]);
                let one = seq![ctx.functions@[i as int]];
                assert(one.drop_last() =~= Seq::<FunctionNode>::empty());
                assert(one.last() == ctx.functions@[i as int]);
                assert(function_symbols(one.drop_last(), seen + i, space) == Seq::<SymbolInfoView>::empty());
                assert(function_symbols(one, seen + i, space) =~= match function_symbol(
                    ctx.functions@[i as int],
                    (seen + i + 1) as u32,
                    space,
                ) {
                    Some(v) => seq![v],
                    None => Seq::empty(),
                });
                assert(self.spec_symbols() =~= base + function_symbols(t, seen, space));
            }
            i += 1;
        }
        assert(ctx.functions@.take(ctx.functions.len() as int) =~= ctx.functions@);
        self.current_extension_space = old_extension_space;
    }
}

impl PlanVisitor for MainPlanVisitor {
    fn error_listener(&self) -> (r: &ErrorListener)
        ensures
            r@ == self.spec_errors(),
    {
        self.get_error_listener()
    }

    fn symbol_table(&self) -> (r: SymbolTable)
        ensures
            r@ == self.spec_symbols(),
    {
        self.get_symbol_table()
    }
}

} // verus!
