use substrait_textplan::textplan::common::location::BoxedLocation;
use substrait_textplan::textplan::common::text_location::TextLocation;
use substrait_textplan::textplan::common::unknown_location::UnknownLocation;
use substrait_textplan::textplan::symbol_table::{
    RelationType, SymbolSubtype, SymbolTable, SymbolType,
};

fn at(position: i32) -> BoxedLocation {
    BoxedLocation::from(TextLocation::new(position, 1))
}

#[test]
fn defined_symbols_are_kept_in_order() {
    let mut table = SymbolTable::new();
    assert_eq!(table.len(), 0);
    let a = table.define_symbol("a".to_string(), at(1), SymbolType::Schema, None, None);
    assert_eq!(a.name(), "a");
    table.define_symbol(
        "r".to_string(),
        at(2),
        SymbolType::Relation,
        Some(SymbolSubtype::Relation(RelationType::Read)),
        None,
    );
    assert_eq!(table.len(), 2);
    let names: Vec<&str> = table.symbols().iter().map(|s| s.name()).collect();
    assert_eq!(names, vec!["a", "r"]);
    assert_eq!(table.symbols()[1].symbol_type(), SymbolType::Relation);
}

#[test]
fn lookup_finds_the_first_symbol_of_a_name() {
    let mut table = SymbolTable::new();
    table.define_symbol("x".to_string(), at(1), SymbolType::Schema, None, None);
    table.define_symbol("x".to_string(), at(2), SymbolType::Source, None, None);
    let found = table.lookup_symbol_by_name("x").expect("x is defined");
    assert_eq!(found.symbol_type(), SymbolType::Schema);
    assert!(table.lookup_symbol_by_name("y").is_none());
    assert!(table.has_symbol_named("x"));
    assert!(!table.has_symbol_named("y"));
}

#[test]
fn lookup_after_define_finds_the_new_symbol() {
    let mut table = SymbolTable::new();
    table.define_symbol("other".to_string(), UnknownLocation::boxed(), SymbolType::Root, None, None);
    table.define_symbol("fresh".to_string(), at(9), SymbolType::Function, None, None);
    let found = table.lookup_symbol_by_name("fresh").expect("just defined");
    assert_eq!(found.symbol_type(), SymbolType::Function);
}

#[test]
fn unique_names_are_free() {
    let mut table = SymbolTable::new();
    assert_eq!(table.get_unique_name("rel"), "rel");
    table.define_symbol("rel".to_string(), at(1), SymbolType::Relation, None, None);
    assert_eq!(table.get_unique_name("rel"), "rel2");
    table.define_symbol("rel2".to_string(), at(2), SymbolType::Relation, None, None);
    table.define_symbol("rel3".to_string(), at(3), SymbolType::Relation, None, None);
    let name = table.get_unique_name("rel");
    assert_eq!(name, "rel4");
    assert!(!table.has_symbol_named(&name));
}

#[test]
fn a_copy_of_a_table_has_the_same_symbols() {
    let mut table = SymbolTable::new();
    table.define_symbol("s".to_string(), at(1), SymbolType::Source, Some(SymbolSubtype::Text("named_table".to_string())), None);
    let copy = table.duplicate();
    assert_eq!(copy.len(), 1);
    assert_eq!(copy.symbols()[0].name(), "s");
    match copy.symbols()[0].subtype() {
        Some(SymbolSubtype::Text(t)) => assert_eq!(t, "named_table"),
        _ => panic!("the subtype is kept"),
    }
}

#[test]
fn lookup_by_location_and_type() {
    let mut table = SymbolTable::new();
    table.define_symbol("s".to_string(), at(4), SymbolType::Schema, None, None);
    table.define_symbol("r".to_string(), at(4), SymbolType::Relation, None, None);
    table.define_symbol("r2".to_string(), at(4), SymbolType::Relation, None, None);
    let found = table
        .lookup_symbol_by_location_and_type(&at(4), SymbolType::Relation)
        .expect("a relation is defined there");
    assert_eq!(found.name(), "r");
    assert!(table.lookup_symbol_by_location_and_type(&at(5), SymbolType::Relation).is_none());
    assert!(table.lookup_symbol_by_location_and_type(&at(4), SymbolType::Root).is_none());
}
