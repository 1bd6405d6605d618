use substrait_textplan::proto::{Relation, RelType};
use substrait_textplan::textplan::common::proto_location::ProtoLocation;
use substrait_textplan::textplan::converter::initial_plan_visitor::{
    InitialPlanVisitor, ProjectExpression, RelationFields,
};
use substrait_textplan::textplan::symbol_table::{SymbolBlob, SymbolTable, SymbolType};

fn fields(kind: RelType) -> RelationFields {
    RelationFields {
        relation: Relation { rel_type: Some(kind) },
        base_schema_names: None,
        has_input: false,
        input_count: 0,
        grouping_fields: vec![],
        measure_count: 0,
        expressions: vec![],
        output_mapping: vec![],
    }
}

/// Records a read with base schema fields `a` and `b` below `top`'s input for `kind`, then
/// the relation `r` at `top`; gives the table.
fn recorded(kind_field: &str, r: RelationFields) -> SymbolTable {
    let marker = 0u8;
    let top = ProtoLocation::new(&marker).field("relations").indexed_field("rel", 0);
    let mut v = InitialPlanVisitor::new(SymbolTable::new());
    v.set_location(top.field(kind_field).field("input"));
    let mut read = fields(RelType::Read);
    read.base_schema_names = Some(vec!["a".to_string(), "b".to_string()]);
    v.pre_process_rel(&read.relation);
    v.post_process_rel(&read);
    v.set_location(top.clone());
    v.pre_process_rel(&r.relation);
    v.post_process_rel(&r);
    v.symbol_table().duplicate()
}

fn lists(t: &SymbolTable, i: usize) -> (Vec<usize>, Vec<usize>, Vec<usize>) {
    match t.symbols()[i].blob() {
        Some(SymbolBlob::Relation(d)) => (
            d.field_references.clone(),
            d.generated_field_references.clone(),
            d.output_field_references.clone(),
        ),
        _ => panic!("relation data"),
    }
}

fn names(t: &SymbolTable) -> Vec<&str> {
    t.symbols().iter().map(|s| s.name()).collect()
}

#[test]
fn a_read_records_its_base_schema_fields() {
    let mut f = fields(RelType::Filter);
    f.has_input = true;
    let t = recorded("filter", f);
    assert_eq!(names(&t), vec!["a", "b", "read", "filter"]);
    assert_eq!(t.symbols()[0].symbol_type(), SymbolType::Field);
    assert_eq!(lists(&t, 2), (vec![0, 1], vec![], vec![]));
    // A filter takes the fields of its input.
    assert_eq!(lists(&t, 3), (vec![0, 1], vec![], vec![]));
}

#[test]
fn a_filter_without_its_input_has_no_fields() {
    let t = recorded("filter", fields(RelType::Filter));
    assert_eq!(lists(&t, 3), (vec![], vec![], vec![]));
}

#[test]
fn a_project_makes_the_fields_of_its_expressions() {
    let mut p = fields(RelType::Project);
    p.has_input = true;
    p.expressions = vec![
        ProjectExpression::Field(1),
        ProjectExpression::Computed,
        ProjectExpression::Selection,
        ProjectExpression::Field(5),
    ];
    p.output_mapping = vec![0, 2, 3, 9];
    let t = recorded("project", p);
    assert_eq!(names(&t), vec!["a", "b", "read", "intermediate", "project"]);
    assert_eq!(t.symbols()[3].symbol_type(), SymbolType::Unknown);
    assert_eq!(lists(&t, 4), (vec![0, 1], vec![1, 3], vec![0, 1, 3]));
}

#[test]
fn an_aggregate_makes_its_groupings_and_measures() {
    let mut a = fields(RelType::Aggregate);
    a.has_input = true;
    a.grouping_fields = vec![Some(1), None, Some(7)];
    a.measure_count = 2;
    let t = recorded("aggregate", a);
    assert_eq!(names(&t), vec!["a", "b", "read", "measurename", "measurename2", "aggregate"]);
    assert_eq!(t.symbols()[3].symbol_type(), SymbolType::Measure);
    assert_eq!(lists(&t, 5), (vec![0, 1], vec![1, 3, 4], vec![1, 3, 4]));
}

#[test]
fn an_aggregate_output_mapping_picks_from_what_it_makes() {
    let mut a = fields(RelType::Aggregate);
    a.has_input = true;
    a.grouping_fields = vec![Some(1)];
    a.measure_count = 2;
    a.output_mapping = vec![2, 0, 8];
    let t = recorded("aggregate", a);
    assert_eq!(lists(&t, 5), (vec![0, 1], vec![1, 3, 4], vec![4, 1]));
}
