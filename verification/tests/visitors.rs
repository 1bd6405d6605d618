use substrait_textplan::proto::{Kind, NULLABILITY_NULLABLE};
use substrait_textplan::textplan::common::text_location::TextLocation;
use substrait_textplan::textplan::parser::error_listener::ErrorListener;
use substrait_textplan::textplan::parser::parse_text::load_text_string;
use substrait_textplan::textplan::parser::visitors::{
    extract_from_string, token_to_location, MainPlanVisitor, PipelineVisitor, PlanVisitor, RelationVisitor,
    SubqueryRelationVisitor, TypeVisitor,
};
use substrait_textplan::textplan::symbol_table::{SymbolTable, SymbolType};
use substrait_textplan::textplan::common::unknown_location::UnknownLocation;

#[test]
fn quotes_are_removed() {
    assert_eq!(extract_from_string("\"abc\""), "abc");
    assert_eq!(extract_from_string("\"abc"), "abc");
    assert_eq!(extract_from_string("abc\""), "abc");
    assert_eq!(extract_from_string("\"\""), "");
    assert_eq!(extract_from_string("\""), "\"");
    assert_eq!(extract_from_string("x"), "x");
}

#[test]
fn text_is_loaded_as_it_is() {
    assert_eq!(load_text_string("schema s {}"), "schema s {}");
}

#[test]
fn the_type_pass_reports_unknown_types_where_they_are() {
    let mut v = TypeVisitor::new(SymbolTable::new(), ErrorListener::new());
    let t = v.text_to_type_proto(TextLocation::new(4, 8), "decimal?<10,2>");
    match t.kind {
        Some(Kind::Decimal { precision, scale, nullability }) => {
            assert_eq!((precision, scale, nullability), (10, 2, NULLABILITY_NULLABLE));
        }
        _ => panic!("a decimal type"),
    }
    assert!(!v.error_listener().has_errors());
    v.text_to_type_proto(TextLocation::new(20, 3), "wibble");
    assert_eq!(
        v.error_listener().format_errors(),
        vec!["Unsupported or unknown type: wibble at pos 20 len 3".to_string()]
    );
    assert!(!v.inside_struct_literal_with_external_type());
    v.symbol_table_mut().define_symbol(
        "t".to_string(),
        UnknownLocation::boxed(),
        SymbolType::Schema,
        None,
        None,
    );
    assert_eq!(v.symbol_table().len(), 1);
}

#[test]
fn the_passes_hand_their_table_on() {
    let mut table = SymbolTable::new();
    table.define_symbol("r".to_string(), UnknownLocation::boxed(), SymbolType::Relation, None, None);

    let mut main = MainPlanVisitor::new(table.duplicate(), ErrorListener::new());
    assert!(main.current_relation_scope().is_none());
    let scope = main.get_symbol_table().symbols()[0].duplicate();
    main.set_current_relation_scope(Some(scope));
    assert_eq!(main.current_relation_scope().map(|s| s.name()), Some("r"));
    assert!(main.current_source_scope().is_none());
    main.set_current_source_scope(None);
    assert!(!main.get_error_listener().has_errors());

    let pipeline = PipelineVisitor::new(table.duplicate(), ErrorListener::new());
    assert_eq!(pipeline.symbol_table().len(), 1);
    assert!(!pipeline.error_listener().has_errors());

    let mut relation = RelationVisitor::new(table.duplicate(), ErrorListener::new());
    relation.set_prescan_mode(true);
    relation.set_prescan_mode(false);
    assert!(relation.current_relation_scope().is_none());
    relation.set_current_relation_scope(Some(table.symbols()[0].duplicate()));
    assert_eq!(relation.current_relation_scope().map(|s| s.name()), Some("r"));
    assert_eq!(PlanVisitor::symbol_table(&relation).len(), 1);

    let mut subquery = SubqueryRelationVisitor::new(table, ErrorListener::new());
    subquery.set_current_relation_scope(None);
    assert!(subquery.current_relation_scope().is_none());
    assert_eq!(subquery.symbol_table().len(), 1);
    assert!(!subquery.error_listener().has_errors());
}

#[test]
fn token_positions_combine_line_and_column() {
    let l = token_to_location(3, 14, 5);
    assert_eq!((l.position(), l.length()), (30014, 5));
    assert_eq!(token_to_location(0, 0, 0), TextLocation::new(0, 0));
}

#[test]
fn passes_record_errors_at_token_locations() {
    let mut main = MainPlanVisitor::new(SymbolTable::new(), ErrorListener::new());
    main.add_error(TextLocation::new(10001, 3), "unknown relation");
    assert_eq!(
        main.get_error_listener().format_errors(),
        vec!["unknown relation at pos 10001 len 3".to_string()]
    );
    let mut pipeline = PipelineVisitor::new(SymbolTable::new(), ErrorListener::new());
    pipeline.add_error(TextLocation::new(1, 1), "cycle");
    assert!(pipeline.error_listener().has_errors());
    let mut relation = RelationVisitor::new(SymbolTable::new(), ErrorListener::new());
    relation.add_error(TextLocation::new(2, 1), "bad field");
    assert!(relation.error_listener().has_errors());
    let mut subquery = SubqueryRelationVisitor::new(SymbolTable::new(), ErrorListener::new());
    subquery.add_error(TextLocation::unknown(), "orphan");
    assert_eq!(subquery.error_listener().format_errors(), vec!["orphan at unknown".to_string()]);
}
