use substrait_textplan::textplan::common::location::BoxedLocation;
use substrait_textplan::textplan::common::text_location::TextLocation;
use substrait_textplan::textplan::parser::error_listener::ErrorListener;
use substrait_textplan::textplan::parser::visitors::main_visitor::{
    ExtensionSpaceNode, FunctionNode, ReadTypeNode, SourceDefinitionNode,
};
use substrait_textplan::textplan::parser::visitors::MainPlanVisitor;
use substrait_textplan::textplan::symbol_table::{SymbolBlob, SymbolTable, SymbolType};

fn function(name: Option<&str>, alias: Option<&str>, at: i32) -> FunctionNode {
    FunctionNode {
        name: name.map(|n| n.to_string()),
        alias: alias.map(|a| a.to_string()),
        start: TextLocation::new(at, 3),
    }
}

#[test]
fn extension_spaces_and_their_functions_become_symbols() {
    let mut v = MainPlanVisitor::new(SymbolTable::new(), ErrorListener::new());
    v.visit_extensionspace(&ExtensionSpaceNode {
        uri: Some(("  https://example.com/f.yaml ".to_string(), TextLocation::new(10001, 28))),
        start: TextLocation::new(10000, 40),
        functions: vec![
            function(Some("add:i32_i32"), None, 20005),
            function(Some("sum:i64"), Some("total"), 30005),
            function(None, Some("ignored"), 40005),
        ],
    });
    v.visit_extensionspace(&ExtensionSpaceNode {
        uri: None,
        start: TextLocation::new(50000, 10),
        functions: vec![function(Some("concat"), None, 60005)],
    });
    let table = v.get_symbol_table();
    let symbols = table.symbols();
    let names: Vec<&str> = symbols.iter().map(|s| s.name()).collect();
    assert_eq!(
        names,
        vec!["https://example.com/f.yaml", "add", "total", "unnamed_extension_space", "concat"]
    );
    assert_eq!(symbols[0].symbol_type(), SymbolType::ExtensionSpace);
    match symbols[0].location() {
        BoxedLocation::Text(t) => assert_eq!(*t, TextLocation::new(10001, 28)),
        _ => panic!("an extension space is located at its URI"),
    }
    match symbols[3].location() {
        BoxedLocation::Text(t) => assert_eq!(*t, TextLocation::new(50000, 10)),
        _ => panic!("an unnamed extension space is located where it starts"),
    }
    match symbols[0].blob() {
        Some(SymbolBlob::ExtensionSpace(d)) => assert_eq!(d.anchor_reference(), 1),
        _ => panic!("an extension space carries its anchor"),
    }
    match symbols[3].blob() {
        Some(SymbolBlob::ExtensionSpace(d)) => assert_eq!(d.anchor_reference(), 2),
        _ => panic!("an extension space carries its anchor"),
    }
    let function_data = |i: usize| match symbols[i].blob() {
        Some(SymbolBlob::Function(f)) => (f.name.clone(), f.extension_uri_reference, f.anchor),
        _ => panic!("a function carries its data"),
    };
    assert_eq!(function_data(1), ("add:i32_i32".to_string(), Some(1), 1));
    assert_eq!(function_data(2), ("sum:i64".to_string(), Some(1), 2));
    assert_eq!(function_data(4), ("concat".to_string(), Some(2), 4));
    assert_eq!(symbols[1].symbol_type(), SymbolType::Function);
}

#[test]
fn functions_outside_an_extension_space_have_no_space() {
    let mut v = MainPlanVisitor::new(SymbolTable::new(), ErrorListener::new());
    v.visit_function(&function(Some("min:i8"), None, 7));
    let table = v.get_symbol_table();
    match table.symbols()[0].blob() {
        Some(SymbolBlob::Function(f)) => {
            assert_eq!(f.extension_uri_reference, None);
            assert_eq!(f.anchor, 1);
        }
        _ => panic!("a function carries its data"),
    }
}

#[test]
fn named_tables_define_sources() {
    let mut v = MainPlanVisitor::new(SymbolTable::new(), ErrorListener::new());
    let named = SourceDefinitionNode {
        read_type: Some(ReadTypeNode::NamedTable { id: Some("orders".to_string()) }),
        start: TextLocation::new(70000, 6),
    };
    let source = v.process_source_definition(&named).unwrap();
    assert_eq!(source.name(), "orders");
    assert_eq!(source.symbol_type(), SymbolType::Source);
    let other = SourceDefinitionNode { read_type: Some(ReadTypeNode::Other), start: TextLocation::new(1, 1) };
    assert!(v.process_source_definition(&other).is_none());
    let unnamed = SourceDefinitionNode {
        read_type: Some(ReadTypeNode::NamedTable { id: None }),
        start: TextLocation::new(1, 1),
    };
    assert!(v.process_source_definition(&unnamed).is_none());
    assert_eq!(v.get_symbol_table().symbols().len(), 1);
}
