use substrait_textplan::proto::RelType;
use substrait_textplan::textplan::common::text_location::TextLocation;
use substrait_textplan::textplan::converter::save_binary::create_plan_from_symbol_table;
use substrait_textplan::textplan::parser::error_listener::ErrorListener;
use substrait_textplan::textplan::parser::visitors::main_visitor::{RelationNode, RootRelationNode};
use substrait_textplan::textplan::parser::visitors::MainPlanVisitor;
use substrait_textplan::textplan::symbol_table::{
    RelationType, SymbolBlob, SymbolSubtype, SymbolTable, SymbolType,
};

fn relation(name: Option<&str>, kind: Option<&str>) -> RelationNode {
    RelationNode {
        name: name.map(|n| n.to_string()),
        relation_type: kind.map(|k| k.to_string()),
        start: TextLocation::new(7, 4),
    }
}

fn kinds_of(v: &mut MainPlanVisitor, kind: &str) -> (RelationType, Option<RelType>) {
    let symbol = v.process_relation(&relation(Some("r"), Some(kind))).expect("named");
    let subtype = match symbol.subtype() {
        Some(SymbolSubtype::Relation(t)) => *t,
        _ => panic!("a relation subtype"),
    };
    let rel = match symbol.blob() {
        Some(SymbolBlob::Relation(d)) => d.relation.rel_type,
        _ => panic!("relation data"),
    };
    (subtype, rel)
}

#[test]
fn relation_types_are_read_without_regard_to_case() {
    let mut v = MainPlanVisitor::new(SymbolTable::new(), ErrorListener::new());
    assert_eq!(kinds_of(&mut v, "READ"), (RelationType::Read, Some(RelType::Read)));
    assert_eq!(kinds_of(&mut v, "Project"), (RelationType::Project, Some(RelType::Project)));
    assert_eq!(kinds_of(&mut v, "hash_join"), (RelationType::HashJoin, Some(RelType::HashJoin)));
    assert_eq!(kinds_of(&mut v, "set"), (RelationType::SetOperation, Some(RelType::SetOperation)));
    assert_eq!(
        kinds_of(&mut v, "EXTENSION_MULTI"),
        (RelationType::ExtensionMulti, Some(RelType::ExtensionMulti))
    );
    assert_eq!(kinds_of(&mut v, "window"), (RelationType::Unknown, None));
}

#[test]
fn a_relation_definition_becomes_the_relation_scope() {
    let mut v = MainPlanVisitor::new(SymbolTable::new(), ErrorListener::new());
    let symbol = v.process_relation(&relation(Some("filter1"), Some("filter"))).expect("named");
    assert_eq!(symbol.name(), "filter1");
    assert_eq!(symbol.symbol_type(), SymbolType::Relation);
    assert_eq!(v.current_relation_scope().map(|s| s.name()), Some("filter1"));
    assert_eq!(v.get_symbol_table().len(), 1);
}

#[test]
fn a_relation_without_a_name_adds_nothing() {
    let mut v = MainPlanVisitor::new(SymbolTable::new(), ErrorListener::new());
    assert!(v.process_relation(&relation(None, Some("read"))).is_none());
    assert_eq!(v.get_symbol_table().len(), 0);
    assert!(v.current_relation_scope().is_none());
    let untyped = v.process_relation(&relation(Some("x"), None)).expect("named");
    match untyped.subtype() {
        Some(SymbolSubtype::Relation(t)) => assert_eq!(*t, RelationType::Unknown),
        _ => panic!("a relation subtype"),
    }
}

#[test]
fn a_root_relation_keeps_its_output_names() {
    let mut v = MainPlanVisitor::new(SymbolTable::new(), ErrorListener::new());
    let root = v.process_root_relation(&RootRelationNode {
        names: vec!["a".to_string(), "b".to_string()],
        start: TextLocation::new(99, 20),
    });
    assert_eq!(root.name(), "root");
    assert_eq!(root.symbol_type(), SymbolType::Relation);
    match root.subtype() {
        Some(SymbolSubtype::Relation(t)) => assert_eq!(*t, RelationType::Root),
        _ => panic!("a relation subtype"),
    }
    match root.blob() {
        Some(SymbolBlob::Relation(d)) => {
            assert_eq!(d.root_names, vec!["a".to_string(), "b".to_string()]);
            assert_eq!(d.relation.rel_type, None);
        }
        _ => panic!("relation data"),
    }
    assert_eq!(v.current_relation_scope().map(|s| s.name()), Some("root"));
    // A root relation that starts no pipeline adds no root to the plan.
    let plan = create_plan_from_symbol_table(&v.get_symbol_table()).expect("always built");
    assert!(plan.roots.is_empty());
}
