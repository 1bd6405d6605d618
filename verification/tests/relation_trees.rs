use substrait_textplan::proto::{load_plan_from_binary, Relation, RelType};
use substrait_textplan::textplan::common::error::TextPlanError;
use substrait_textplan::textplan::common::location::BoxedLocation;
use substrait_textplan::textplan::common::structured_symbol_data::RelationData;
use substrait_textplan::textplan::common::proto_location::ProtoLocation;
use substrait_textplan::textplan::common::text_location::TextLocation;
use substrait_textplan::textplan::converter::initial_plan_visitor::{
    InitialPlanVisitor, ProjectExpression, RelationFields,
};
use substrait_textplan::textplan::converter::pipeline_visitor::PipelineVisitor as LinkingVisitor;
use substrait_textplan::textplan::converter::relation_tree::{bare_relation, relation_message, RelationTree};
use substrait_textplan::textplan::converter::save_binary::{
    add_inputs_to_relation, create_plan_from_symbol_table, save_to_binary,
};
use substrait_textplan::textplan::parser::error_listener::ErrorListener;
use substrait_textplan::textplan::parser::visitors::main_visitor::{RelationNode, RootRelationNode};
use substrait_textplan::textplan::parser::visitors::pipeline_visitor::PipelineNode;
use substrait_textplan::textplan::parser::visitors::{MainPlanVisitor, PipelineVisitor, RelationVisitor};
use substrait_textplan::textplan::symbol_table::{SymbolBlob, SymbolTable, SymbolType};

fn chain(names: &[&str]) -> PipelineNode {
    let mut node: Option<Box<PipelineNode>> = None;
    for (i, n) in names.iter().enumerate() {
        node = Some(Box::new(PipelineNode {
            name: Some(n.to_string()),
            start: TextLocation::new(100 + i as i32, 2),
            nested: node,
        }));
    }
    *node.expect("at least one name")
}

/// The symbol table of a parsed plan with these relations, a root with these output names,
/// and these pipelines.
fn parsed(relations: &[(&str, &str)], pipelines: &[&[&str]]) -> SymbolTable {
    let mut v = MainPlanVisitor::new(SymbolTable::new(), ErrorListener::new());
    for (name, kind) in relations {
        v.process_relation(&RelationNode {
            name: Some(name.to_string()),
            relation_type: Some(kind.to_string()),
            start: TextLocation::new(1, 1),
        });
    }
    v.process_root_relation(&RootRelationNode { names: vec!["out".to_string()], start: TextLocation::new(2, 1) });
    let mut p = PipelineVisitor::new(v.get_symbol_table(), ErrorListener::new());
    let nodes: Vec<PipelineNode> = pipelines.iter().map(|c| chain(c)).collect();
    p.visit_pipelines(&nodes);
    p.symbol_table()
}

fn rel(kind: RelType) -> Relation {
    Relation { rel_type: Some(kind) }
}

fn shape(t: &RelationTree) -> String {
    let mut s = format!("{:?}", t.kind.expect("a kind"));
    if t.direct_emit {
        s.push('*');
    }
    if !t.emit.is_empty() {
        s.push_str(&format!("{:?}", t.emit));
    }
    let mut kids: Vec<String> = Vec::new();
    for b in [&t.input, &t.left, &t.right].into_iter().flatten() {
        kids.push(shape(b));
    }
    for c in &t.inputs {
        kids.push(shape(c));
    }
    if !kids.is_empty() {
        s.push_str(&format!("({})", kids.join(",")));
    }
    s
}

#[test]
fn a_root_takes_the_tree_of_its_pipeline() {
    let table = parsed(&[("scan", "read"), ("keep", "filter")], &[&["scan", "keep", "root"]]);
    let plan = create_plan_from_symbol_table(&table).expect("builds");
    assert_eq!(plan.roots.len(), 1);
    assert_eq!(plan.roots[0].names, vec!["out".to_string()]);
    let tree = plan.roots[0].input.as_ref().expect("a tree");
    assert_eq!(shape(tree), "Filter*(Read*)");
}

#[test]
fn a_join_takes_its_two_pipelines() {
    let table = parsed(
        &[("l", "read"), ("r", "read"), ("j", "join"), ("s", "sort")],
        &[&["l", "j"], &["r", "j"], &["j", "s", "root"]],
    );
    let plan = create_plan_from_symbol_table(&table).expect("builds");
    assert_eq!(shape(plan.roots[0].input.as_ref().expect("a tree")), "Sort*(Join(Read*,Read*))");
}

#[test]
fn saved_binary_holds_the_root_with_its_tree() {
    let table = parsed(&[("scan", "read"), ("keep", "filter")], &[&["scan", "keep", "root"]]);
    let bytes = save_to_binary(&table).expect("encodes");
    let plan = load_plan_from_binary(&bytes).expect("decodes");
    assert_eq!(plan.relations.len(), 1);
    let root = match &plan.relations[0].rel_type {
        Some(substrait::proto::plan_rel::RelType::Root(root)) => root,
        _ => panic!("a root"),
    };
    assert_eq!(root.names, vec!["out".to_string()]);
    let filter = match root.input.as_ref().and_then(|r| r.rel_type.as_ref()) {
        Some(substrait::proto::rel::RelType::Filter(f)) => f,
        _ => panic!("a filter"),
    };
    assert!(filter.common.is_some());
    match filter.input.as_ref().and_then(|r| r.rel_type.as_ref()) {
        Some(substrait::proto::rel::RelType::Read(_)) => {}
        _ => panic!("a read under the filter"),
    }
}

#[test]
fn a_visited_symbol_adds_nothing() {
    let table = parsed(&[("scan", "read"), ("keep", "filter")], &[&["scan", "keep", "root"]]);
    let mut tree = bare_relation(rel(RelType::Filter));
    let mut visited = vec![1usize];
    assert!(add_inputs_to_relation(&table, 1, &mut tree, &mut visited).is_ok());
    assert_eq!(shape(&tree), "Filter");
    assert_eq!(visited, vec![1]);
}

#[test]
fn inputs_are_added_and_symbols_recorded() {
    let table = parsed(&[("scan", "read"), ("keep", "filter")], &[&["scan", "keep", "root"]]);
    let mut tree = bare_relation(rel(RelType::Filter));
    let mut visited: Vec<usize> = Vec::new();
    assert!(add_inputs_to_relation(&table, 1, &mut tree, &mut visited).is_ok());
    assert_eq!(shape(&tree), "Filter*(Read*)");
    assert_eq!(visited, vec![1, 0]);
}

#[test]
fn a_symbol_without_data_is_an_error() {
    let mut table = SymbolTable::new();
    table.define_symbol("x".to_string(), BoxedLocation::from(TextLocation::new(1, 1)), SymbolType::Relation, None, None);
    let mut data = RelationData::new(rel(RelType::Filter));
    data.continuing_pipeline = Some(0);
    table.define_symbol(
        "f".to_string(),
        BoxedLocation::from(TextLocation::new(2, 1)),
        SymbolType::Relation,
        None,
        Some(SymbolBlob::Relation(data)),
    );
    let mut tree = bare_relation(rel(RelType::Read));
    let mut visited: Vec<usize> = Vec::new();
    match add_inputs_to_relation(&table, 0, &mut tree, &mut visited) {
        Err(TextPlanError::ProtobufError(m)) => assert_eq!(m, "Relation symbol 'x' has no blob data"),
        _ => panic!("an error"),
    }
    assert_eq!(visited, vec![0]);
}

#[test]
fn data_that_is_not_a_relation_is_an_error() {
    let mut table = SymbolTable::new();
    table.define_symbol(
        "n".to_string(),
        BoxedLocation::from(TextLocation::new(1, 1)),
        SymbolType::Relation,
        None,
        Some(SymbolBlob::Names(vec![])),
    );
    let mut tree = bare_relation(rel(RelType::Read));
    let mut visited: Vec<usize> = Vec::new();
    match add_inputs_to_relation(&table, 0, &mut tree, &mut visited) {
        Err(TextPlanError::ProtobufError(m)) => assert_eq!(m, "Relation symbol 'n' blob is not RelationData"),
        _ => panic!("an error"),
    }
}

#[test]
fn a_tree_becomes_a_substrait_relation() {
    let mut tree = bare_relation(rel(RelType::SetOperation));
    tree.direct_emit = true;
    tree.inputs.push(bare_relation(rel(RelType::Read)));
    tree.inputs.push(bare_relation(rel(RelType::Read)));
    match relation_message(&tree).rel_type {
        Some(substrait::proto::rel::RelType::Set(s)) => {
            assert_eq!(s.inputs.len(), 2);
            assert!(s.common.is_some());
        }
        _ => panic!("a set"),
    }
}

#[test]
fn a_project_emits_its_output_fields() {
    let marker = 0u8;
    let top = ProtoLocation::new(&marker).field("relations").indexed_field("rel", 0);
    let read_at = top.field("project").field("input");
    let mut first = InitialPlanVisitor::new(SymbolTable::new());
    let read = RelationFields {
        relation: rel(RelType::Read),
        base_schema_names: Some(vec!["a".to_string(), "b".to_string()]),
        has_input: false,
        input_count: 0,
        grouping_fields: vec![],
        measure_count: 0,
        expressions: vec![],
        output_mapping: vec![],
    };
    first.set_location(read_at.clone());
    first.pre_process_rel(&read.relation);
    first.post_process_rel(&read);
    let project = RelationFields {
        relation: rel(RelType::Project),
        base_schema_names: None,
        has_input: true,
        input_count: 0,
        grouping_fields: vec![],
        measure_count: 0,
        expressions: vec![ProjectExpression::Field(1), ProjectExpression::Computed],
        output_mapping: vec![0, 2, 3],
    };
    first.set_location(top.clone());
    first.pre_process_rel(&project.relation);
    first.post_process_rel(&project);
    let mut links = LinkingVisitor::new(first.symbol_table().duplicate());
    links.set_location(top.clone());
    links.post_process_rel(&rel(RelType::Project), 0);
    let table = links.symbol_table().duplicate();
    // Symbols: a, b, read, intermediate, project.
    let mut tree = bare_relation(rel(RelType::Project));
    let mut visited: Vec<usize> = Vec::new();
    assert!(add_inputs_to_relation(&table, 4, &mut tree, &mut visited).is_ok());
    assert_eq!(shape(&tree), "Project[0, 2, 3](Read*)");
    match relation_message(&tree).rel_type {
        Some(substrait::proto::rel::RelType::Project(p)) => match p.common.and_then(|c| c.emit_kind) {
            Some(substrait::proto::rel_common::EmitKind::Emit(e)) => assert_eq!(e.output_mapping, vec![0, 2, 3]),
            _ => panic!("an emit mapping"),
        },
        _ => panic!("a project"),
    }
}

#[test]
fn input_fields_flow_down_the_pipelines() {

    let mut table = parsed(&[("scan", "read"), ("keep", "filter")], &[&["scan", "keep", "root"]]);
    let mut data = match table.symbols()[0].blob() {
        Some(SymbolBlob::Relation(d)) => d.duplicate(),
        _ => panic!("relation data"),
    };
    data.field_references = vec![7, 8];
    table.set_blob(0, Some(SymbolBlob::Relation(data)));
    let mut v = RelationVisitor::new(table, ErrorListener::new());
    v.add_input_fields_to_schema(2);
    let t = v.symbol_table();
    let fields = |i: usize| match t.symbols()[i].blob() {
        Some(SymbolBlob::Relation(d)) => d.field_references.clone(),
        _ => panic!("relation data"),
    };
    assert_eq!(fields(0), vec![7, 8]);
    assert_eq!(fields(1), vec![7, 8]);
    assert_eq!(fields(2), vec![7, 8]);
}
