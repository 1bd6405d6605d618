use substrait_textplan::proto::{PlanRel, PlanRelType, Relation, RelType};
use substrait_textplan::textplan::common::proto_location::ProtoLocation;
use substrait_textplan::textplan::converter::initial_plan_visitor::{InitialPlanVisitor, RelationFields};
use substrait_textplan::textplan::converter::pipeline_visitor::PipelineVisitor;
use substrait_textplan::textplan::symbol_table::{SymbolBlob, SymbolTable, SymbolType};

fn rel(kind: RelType) -> Relation {
    Relation { rel_type: Some(kind) }
}

fn no_fields(kind: RelType) -> RelationFields {
    RelationFields {
        relation: rel(kind),
        base_schema_names: None,
        has_input: false,
        input_count: 0,
        grouping_fields: vec![],
        measure_count: 0,
        expressions: vec![],
        output_mapping: vec![],
    }
}

/// Records relations as the first pass does, each at its location.
fn recorded(relations: &[(ProtoLocation, RelType)]) -> SymbolTable {
    let mut v = InitialPlanVisitor::new(SymbolTable::new());
    for (at, kind) in relations {
        v.set_location(at.clone());
        v.pre_process_rel(&rel(*kind));
        v.post_process_rel(&no_fields(*kind));
    }
    v.symbol_table().duplicate()
}

fn links(table: &SymbolTable, i: usize) -> (Option<usize>, Vec<usize>) {
    match table.symbols()[i].blob() {
        Some(SymbolBlob::Relation(d)) => (d.continuing_pipeline, d.new_pipelines.clone()),
        _ => panic!("relation data"),
    }
}

#[test]
fn the_first_pass_records_each_relation_with_its_data() {
    let marker = 0u8;
    let top = ProtoLocation::new(&marker).field("relations").indexed_field("rel", 0);
    let table = recorded(&[(top.field("filter").field("input"), RelType::Read), (top.clone(), RelType::Filter)]);
    let names: Vec<&str> = table.symbols().iter().map(|s| s.name()).collect();
    assert_eq!(names, vec!["read", "filter"]);
    assert_eq!(table.symbols()[1].symbol_type(), SymbolType::Relation);
    assert_eq!(links(&table, 1), (None, vec![]));
}

#[test]
fn a_filter_continues_into_its_input() {
    let marker = 0u8;
    let top = ProtoLocation::new(&marker).field("relations").indexed_field("rel", 0);
    let table = recorded(&[(top.field("filter").field("input"), RelType::Read), (top.clone(), RelType::Filter)]);
    let mut v = PipelineVisitor::new(table);
    v.set_location(top.clone());
    v.pre_process_rel(&rel(RelType::Filter));
    v.post_process_rel(&rel(RelType::Filter), 0);
    assert_eq!(links(v.symbol_table(), 1), (Some(0), vec![]));
    assert_eq!(links(v.symbol_table(), 0), (None, vec![]));
}

#[test]
fn a_join_starts_a_pipeline_from_each_side() {
    let marker = 0u8;
    let top = ProtoLocation::new(&marker).field("relations").indexed_field("rel", 0);
    let table = recorded(&[
        (top.field("join").field("left"), RelType::Read),
        (top.field("join").field("right"), RelType::Read),
        (top.clone(), RelType::Join),
    ]);
    let mut v = PipelineVisitor::new(table);
    v.set_location(top.clone());
    v.post_process_rel(&rel(RelType::Join), 0);
    assert_eq!(links(v.symbol_table(), 2), (None, vec![0, 1]));
    let names: Vec<&str> = v.symbol_table().symbols().iter().map(|s| s.name()).collect();
    assert_eq!(names, vec!["read", "read2", "join"]);
}

#[test]
fn a_set_starts_a_pipeline_from_each_input() {
    let marker = 0u8;
    let top = ProtoLocation::new(&marker).field("relations").indexed_field("rel", 0);
    let table = recorded(&[
        (top.field("set").indexed_field("inputs", 1), RelType::Read),
        (top.field("set").indexed_field("inputs", 0), RelType::Read),
        (top.clone(), RelType::SetOperation),
    ]);
    let mut v = PipelineVisitor::new(table);
    v.set_location(top.clone());
    v.post_process_rel(&rel(RelType::SetOperation), 2);
    assert_eq!(links(v.symbol_table(), 2), (None, vec![1, 0]));
}

#[test]
fn a_read_has_no_inputs_to_link() {
    let marker = 0u8;
    let top = ProtoLocation::new(&marker).field("relations").indexed_field("rel", 0);
    let table = recorded(&[(top.clone(), RelType::Read)]);
    let mut v = PipelineVisitor::new(table);
    v.set_location(top.clone());
    v.post_process_rel(&rel(RelType::Read), 0);
    assert_eq!(links(v.symbol_table(), 0), (None, vec![]));
}

#[test]
fn a_plan_relation_starts_a_pipeline_from_its_root_input() {
    let marker = 0u8;
    let top = ProtoLocation::new(&marker).field("relations").indexed_field("relations", 0);
    let input_at = top.field("root").field("input");
    let mut first = InitialPlanVisitor::new(SymbolTable::new());
    first.set_location(top.clone());
    let plan_rel = PlanRel { rel_type: Some(PlanRelType::Root) };
    first.pre_process_plan_rel(&plan_rel);
    first.set_location(input_at.clone());
    first.pre_process_rel(&rel(RelType::Read));
    first.post_process_rel(&no_fields(RelType::Read));
    let table = first.symbol_table().duplicate();
    let names: Vec<&str> = table.symbols().iter().map(|s| s.name()).collect();
    assert_eq!(names, vec!["root", "read"]);
    assert_eq!(table.symbols()[0].symbol_type(), SymbolType::PlanRelation);

    let mut v = PipelineVisitor::new(table);
    v.set_location(top.clone());
    v.post_process_plan_rel(&plan_rel);
    assert_eq!(links(v.symbol_table(), 0), (None, vec![1]));
}
