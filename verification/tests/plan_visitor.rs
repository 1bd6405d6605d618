use substrait_textplan::textplan::common::text_location::TextLocation;
use substrait_textplan::textplan::parser::error_listener::ErrorListener;
use substrait_textplan::textplan::parser::plan_visitor::{
    NodeType, ParseNode, SymbolTableVisitor, Visitor,
};
use substrait_textplan::textplan::symbol_table::{
    RelationType, SymbolSubtype, SymbolTable, SymbolType,
};

fn node(kind: NodeType, text: &str, position: i32) -> ParseNode {
    ParseNode::new(kind, text.to_string(), TextLocation::new(position, 1))
}

fn visitor() -> SymbolTableVisitor {
    SymbolTableVisitor::new(SymbolTable::new(), ErrorListener::new())
}

#[test]
fn parse_nodes_hold_their_children() {
    let mut parent = node(NodeType::Plan, "plan", 0);
    parent.add_child(node(NodeType::Root, "root", 1));
    assert_eq!(parent.node_type(), &NodeType::Plan);
    assert_eq!(parent.text(), "plan");
    assert_eq!(parent.children().len(), 1);
    assert_eq!(parent.children()[0].text(), "root");
}

#[test]
fn a_relation_defines_its_symbol_with_its_type() {
    let mut relation = node(NodeType::Relation, "read relation orders {", 5);
    relation.add_child(node(NodeType::Identifier, "READ", 5));
    let mut v = visitor();
    let symbol = v.visit(&relation).expect("a relation defines a symbol");
    assert_eq!(symbol.name(), "orders");
    assert_eq!(symbol.symbol_type(), SymbolType::Relation);
    match symbol.subtype() {
        Some(SymbolSubtype::Relation(t)) => assert_eq!(*t, RelationType::Read),
        _ => panic!("a relation carries its type"),
    }
    assert_eq!(v.symbol_table().len(), 1);
}

#[test]
fn unnamed_and_unknown_relations() {
    let relation = node(NodeType::Relation, "relation", 0);
    let mut v = visitor();
    let symbol = v.visit(&relation).expect("a relation defines a symbol");
    assert_eq!(symbol.name(), "unknown_relation");
    match symbol.subtype() {
        Some(SymbolSubtype::Relation(t)) => assert_eq!(*t, RelationType::Unknown),
        _ => panic!("a relation carries its type"),
    }
}

#[test]
fn a_plan_visits_every_part() {
    let mut plan = node(NodeType::Plan, "plan {", 0);
    let mut schema = node(NodeType::Schema, "schema people {", 1);
    schema.add_child(node(NodeType::Other("schema_column".to_string()), "name string;", 2));
    schema.add_child(node(NodeType::Other("schema_column".to_string()), "age;", 3));
    schema.add_child(node(NodeType::Other("schema_column".to_string()), "id i64;;", 4));
    plan.add_child(schema);
    plan.add_child(node(NodeType::Source, "source named_table src {", 5));
    plan.add_child(node(NodeType::Source, "source named_table", 6));
    plan.add_child(node(NodeType::Root, "root {", 7));
    let mut space = node(NodeType::ExtensionSpace, "extension_space {", 8);
    let mut function = node(NodeType::Function, "function add", 9);
    function.add_child(node(NodeType::Identifier, "add:i32_i32", 9));
    space.add_child(function);
    space.add_child(node(NodeType::Function, "function", 10));
    plan.add_child(space);

    let mut v = visitor();
    assert!(v.visit(&plan).is_none());
    let table = v.symbol_table();
    let names: Vec<&str> = table.symbols().iter().map(|s| s.name()).collect();
    assert_eq!(
        names,
        vec!["people", "name", "id", "src", "root", "space1", "add:i32_i32", "function2"]
    );
    let types: Vec<SymbolType> = table.symbols().iter().map(|s| s.symbol_type()).collect();
    assert_eq!(
        types,
        vec![
            SymbolType::Schema,
            SymbolType::SchemaColumn,
            SymbolType::SchemaColumn,
            SymbolType::Source,
            SymbolType::Root,
            SymbolType::ExtensionSpace,
            SymbolType::Function,
            SymbolType::Function,
        ]
    );
    match table.symbols()[1].subtype() {
        Some(SymbolSubtype::Text(t)) => assert_eq!(t, "string"),
        _ => panic!("a column carries its type"),
    }
    match table.symbols()[3].subtype() {
        Some(SymbolSubtype::Text(t)) => assert_eq!(t, "named_table"),
        _ => panic!("a source carries its kind"),
    }
    assert!(!v.error_listener().has_errors());
}
