use substrait_textplan::proto::{
    ExtensionFunction, MappingType, Relation, RelRoot, RelType, SimpleExtensionDeclaration, SimpleExtensionUri,
};
use substrait_textplan::textplan::common::location::BoxedLocation;
use substrait_textplan::textplan::common::proto_location::ProtoLocation;
use substrait_textplan::textplan::converter::initial_plan_visitor::InitialPlanVisitor;
use substrait_textplan::textplan::converter::pipeline_visitor::PipelineVisitor;
use substrait_textplan::textplan::symbol_table::{SymbolBlob, SymbolTable, SymbolType};

fn declaration(name: &str, anchor: u32) -> SimpleExtensionDeclaration {
    SimpleExtensionDeclaration {
        mapping_type: Some(MappingType::ExtensionFunction(ExtensionFunction {
            extension_uri_reference: 1,
            function_anchor: anchor,
            name: name.to_string(),
        })),
    }
}

#[test]
fn extension_spaces_and_functions_are_recorded() {
    let plan_marker = 0u8;
    let mut v = InitialPlanVisitor::new(SymbolTable::new());
    v.set_location(ProtoLocation::new(&plan_marker).field("extension_uris"));
    v.post_process_simple_extension_uri(&SimpleExtensionUri {
        extension_uri_anchor: 1,
        uri: "https://example.com/functions.yaml".to_string(),
    });
    v.post_process_simple_extension_declaration(&declaration("add:i32_i32", 4));
    v.post_process_simple_extension_declaration(&declaration("add:i64_i64", 5));
    v.post_process_simple_extension_declaration(&SimpleExtensionDeclaration { mapping_type: None });

    let symbols = v.symbol_table().symbols();
    let names: Vec<&str> = symbols.iter().map(|s| s.name()).collect();
    assert_eq!(names, vec!["https://example.com/functions.yaml", "add", "add2"]);
    assert_eq!(symbols[0].symbol_type(), SymbolType::ExtensionSpace);
    match symbols[0].blob() {
        Some(SymbolBlob::ExtensionSpace(d)) => assert_eq!(d.anchor_reference(), 1),
        _ => panic!("an extension space carries its anchor"),
    }
    match symbols[2].blob() {
        Some(SymbolBlob::Function(f)) => {
            assert_eq!(f.name, "add:i64_i64");
            assert_eq!(f.anchor, 5);
            assert_eq!(f.extension_uri_reference, Some(1));
        }
        _ => panic!("a function carries its data"),
    }
    match symbols[1].location() {
        BoxedLocation::Proto(p) => {
            assert_eq!(p.path_string(), ".extension_uris.extension_function")
        }
        _ => panic!("a function is located in the plan"),
    }
    assert_eq!(v.current_location().path_string(), ".extension_uris");
}

#[test]
fn root_names_are_recorded() {
    let mut v = InitialPlanVisitor::new(SymbolTable::new());
    v.post_process_rel_root(&RelRoot { names: vec!["a".to_string(), "b".to_string()] });
    v.post_process_rel_root(&RelRoot { names: vec![] });
    let symbols = v.symbol_table().symbols();
    assert_eq!(symbols[0].name(), "root.names");
    assert_eq!(symbols[1].name(), "root.names2");
    assert_eq!(symbols[0].symbol_type(), SymbolType::Root);
    match symbols[0].blob() {
        Some(SymbolBlob::Names(n)) => assert_eq!(n, &vec!["a".to_string(), "b".to_string()]),
        _ => panic!("the root carries its names"),
    }
    v.symbol_table_mut().define_symbol(
        "extra".to_string(),
        BoxedLocation::Proto(ProtoLocation::unknown()),
        SymbolType::Schema,
        None,
        None,
    );
    assert_eq!(v.symbol_table().len(), 3);
}

#[test]
fn the_pipeline_pass_keeps_the_table() {
    let mut table = SymbolTable::new();
    table.define_symbol(
        "r".to_string(),
        BoxedLocation::Proto(ProtoLocation::unknown()),
        SymbolType::Relation,
        None,
        None,
    );
    let mut v = PipelineVisitor::new(table);
    assert_eq!(v.symbol_table().len(), 1);
    v.symbol_table_mut().define_symbol(
        "s".to_string(),
        BoxedLocation::Proto(ProtoLocation::unknown()),
        SymbolType::Relation,
        None,
        None,
    );
    assert_eq!(v.symbol_table().len(), 2);
}

#[test]
fn entering_a_relation_records_its_path() {
    let plan_marker = 0u8;
    let mut v = InitialPlanVisitor::new(SymbolTable::new());
    v.set_location(ProtoLocation::new(&plan_marker).field("relations").indexed_field("rel", 0));
    v.pre_process_rel(&Relation { rel_type: Some(RelType::Read) });
    assert_eq!(v.current_location().path_string(), ".relations.rel[0]");
    assert_eq!(v.symbol_table().len(), 0);
}

#[test]
fn the_pipeline_pass_finds_the_relation_it_enters() {
    let plan_marker = 0u8;
    let here = ProtoLocation::new(&plan_marker).field("relations").indexed_field("rel", 0);
    let mut table = SymbolTable::new();
    table.define_symbol(
        "schema".to_string(),
        BoxedLocation::Proto(here.clone()),
        SymbolType::Schema,
        None,
        None,
    );
    table.define_symbol(
        "read".to_string(),
        BoxedLocation::Proto(here.clone()),
        SymbolType::Relation,
        None,
        None,
    );
    let mut v = PipelineVisitor::new(table);
    v.set_location(here.field("input"));
    v.pre_process_rel(&Relation { rel_type: Some(RelType::Filter) });
    assert_eq!(v.current_location().path_string(), ".relations.rel[0].input");
    v.set_location(here);
    v.pre_process_rel(&Relation { rel_type: Some(RelType::Read) });
    assert_eq!(v.symbol_table().len(), 2);
}
