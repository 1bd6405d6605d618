use substrait_textplan::proto::{
    load_plan_from_binary, ExtensionFunction, MappingType, SimpleExtensionDeclaration, SimpleExtensionUri,
};
use substrait_textplan::textplan::common::location::BoxedLocation;
use substrait_textplan::textplan::common::proto_location::ProtoLocation;
use substrait_textplan::textplan::common::text_location::TextLocation;
use substrait_textplan::textplan::converter::initial_plan_visitor::InitialPlanVisitor;
use substrait_textplan::textplan::converter::save_binary::{
    create_plan_from_symbol_table, plan_from_model, save_to_binary,
};
use substrait_textplan::textplan::symbol_table::{SymbolTable, SymbolType};

fn uri(anchor: u32, text: &str) -> SimpleExtensionUri {
    SimpleExtensionUri { extension_uri_anchor: anchor, uri: text.to_string() }
}

fn function(reference: u32, anchor: u32, name: &str) -> SimpleExtensionDeclaration {
    SimpleExtensionDeclaration {
        mapping_type: Some(MappingType::ExtensionFunction(ExtensionFunction {
            extension_uri_reference: reference,
            function_anchor: anchor,
            name: name.to_string(),
        })),
    }
}

fn sample_table() -> SymbolTable {
    let marker = 0u8;
    let mut v = InitialPlanVisitor::new(SymbolTable::new());
    v.set_location(ProtoLocation::new(&marker).field("extension_uris"));
    v.post_process_simple_extension_uri(&uri(1, "first.yaml"));
    v.post_process_simple_extension_uri(&uri(2, "second.yaml"));
    v.post_process_simple_extension_uri(&uri(1, "again.yaml"));
    v.post_process_simple_extension_declaration(&function(2, 7, "add:i32_i32"));
    v.post_process_simple_extension_declaration(&function(1, 9, "sum:i64"));
    let mut table = v.symbol_table().duplicate();
    table.define_symbol(
        "a".to_string(),
        BoxedLocation::from(TextLocation::new(1, 1)),
        SymbolType::Root,
        None,
        None,
    );
    table.define_symbol(
        "b".to_string(),
        BoxedLocation::from(TextLocation::new(3, 1)),
        SymbolType::Root,
        None,
        None,
    );
    table
}

#[test]
fn plan_of_a_symbol_table_declares_its_extensions_and_roots() {
    let plan = create_plan_from_symbol_table(&sample_table()).expect("always built");
    assert_eq!((plan.major_number, plan.minor_number, plan.patch_number), (0, 1, 0));
    assert_eq!(plan.producer, "Substrait TextPlan Rust");
    let uris: Vec<(u32, &str)> =
        plan.extension_uris.iter().map(|u| (u.extension_uri_anchor, u.uri.as_str())).collect();
    assert_eq!(uris, vec![(1, "again.yaml"), (2, "second.yaml")]);
    let functions: Vec<(u32, u32, &str)> = plan
        .extensions
        .iter()
        .map(|f| (f.extension_uri_reference, f.function_anchor, f.name.as_str()))
        .collect();
    assert_eq!(functions, vec![(2, 7, "add:i32_i32"), (1, 9, "sum:i64")]);
    assert_eq!(plan.roots.len(), 1);
    assert_eq!(plan.roots[0].names, vec!["a".to_string(), "b".to_string()]);
    assert!(plan.roots[0].input.is_none());
}

#[test]
fn plan_of_an_empty_symbol_table_has_no_declarations() {
    let plan = create_plan_from_symbol_table(&SymbolTable::new()).expect("always built");
    assert!(plan.extension_uris.is_empty());
    assert!(plan.extensions.is_empty());
    assert!(plan.roots.is_empty());
    assert_eq!(plan.producer, "Substrait TextPlan Rust");
}

#[test]
fn saved_binary_decodes_to_the_plan_of_the_symbol_table() {
    let bytes = save_to_binary(&sample_table()).expect("encoding fits");
    let plan = load_plan_from_binary(&bytes).expect("decodes");
    let version = plan.version.clone().expect("has a version");
    assert_eq!((version.major_number, version.minor_number, version.patch_number), (0, 1, 0));
    assert_eq!(version.producer, "Substrait TextPlan Rust");
    let urns: Vec<(u32, String)> =
        plan.extension_urns.iter().map(|u| (u.extension_urn_anchor, u.urn.clone())).collect();
    assert_eq!(urns, vec![(1, "again.yaml".to_string()), (2, "second.yaml".to_string())]);
    assert_eq!(plan.extensions.len(), 2);
    assert_eq!(plan.relations.len(), 1);
    match &plan.relations[0].rel_type {
        Some(substrait::proto::plan_rel::RelType::Root(root)) => {
            assert_eq!(root.names, vec!["a".to_string(), "b".to_string()]);
            assert!(root.input.is_none());
        }
        _ => panic!("the plan relation is a root"),
    }
}

#[test]
fn model_converts_to_a_substrait_plan() {
    let model = create_plan_from_symbol_table(&sample_table()).expect("always built");
    let plan = plan_from_model(&model);
    match &plan.extensions[1].mapping_type {
        Some(substrait::proto::extensions::simple_extension_declaration::MappingType::ExtensionFunction(f)) => {
            assert_eq!((f.extension_urn_reference, f.function_anchor, f.name.as_str()), (1, 9, "sum:i64"));
        }
        _ => panic!("a function declaration"),
    }
}
