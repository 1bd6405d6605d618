use substrait_textplan::textplan::common::text_location::TextLocation;
use substrait_textplan::textplan::parser::error_listener::ErrorListener;
use substrait_textplan::textplan::parser::visitors::main_visitor::{RelationNode, RootRelationNode};
use substrait_textplan::textplan::parser::visitors::pipeline_visitor::PipelineNode;
use substrait_textplan::textplan::parser::visitors::{MainPlanVisitor, PipelineVisitor};
use substrait_textplan::textplan::symbol_table::{
    RelationType, SymbolBlob, SymbolSubtype, SymbolTable, SymbolType,
};

/// A pipeline `names[0] -> names[1] -> ...`, the last name being the outermost.
fn chain(names: &[&str]) -> PipelineNode {
    let mut node: Option<Box<PipelineNode>> = None;
    for (i, n) in names.iter().enumerate() {
        node = Some(Box::new(PipelineNode {
            name: Some(n.to_string()),
            start: TextLocation::new(100 + i as i32, 2),
            nested: node,
        }));
    }
    *node.expect("at least one name")
}

fn defined(relations: &[(&str, &str)], with_root: bool) -> SymbolTable {
    let mut v = MainPlanVisitor::new(SymbolTable::new(), ErrorListener::new());
    for (name, kind) in relations {
        v.process_relation(&RelationNode {
            name: Some(name.to_string()),
            relation_type: Some(kind.to_string()),
            start: TextLocation::new(1, 1),
        });
    }
    if with_root {
        v.process_root_relation(&RootRelationNode { names: vec!["out".to_string()], start: TextLocation::new(2, 1) });
    }
    v.get_symbol_table()
}

fn links(table: &SymbolTable, i: usize) -> (Option<usize>, Option<usize>, Vec<usize>) {
    match table.symbols()[i].blob() {
        Some(SymbolBlob::Relation(d)) => (d.pipeline_start, d.continuing_pipeline, d.new_pipelines.clone()),
        _ => panic!("relation data"),
    }
}

#[test]
fn a_pipeline_links_each_relation_to_what_feeds_it() {
    let table = defined(&[("scan", "read"), ("keep", "filter")], true);
    let mut v = PipelineVisitor::new(table, ErrorListener::new());
    v.visit_pipelines(&[chain(&["scan", "keep", "root"])]);
    let t = v.symbol_table();
    assert_eq!(t.len(), 3);
    let names: Vec<&str> = t.symbols().iter().map(|s| s.name()).collect();
    assert_eq!(names, vec!["scan", "keep", "root"]);
    // scan (0) starts its own pipeline; keep (1) continues from scan; root (2) takes keep as a
    // new pipeline and is where its pipeline ends.
    assert_eq!(links(&t, 0), (Some(0), None, vec![]));
    assert_eq!(links(&t, 1), (Some(0), Some(0), vec![]));
    assert_eq!(links(&t, 2), (Some(2), None, vec![1]));
}

#[test]
fn a_join_takes_each_feeding_pipeline_as_a_new_one() {
    let table = defined(&[("l", "read"), ("r", "read"), ("j", "join")], false);
    let mut v = PipelineVisitor::new(table, ErrorListener::new());
    v.visit_pipelines(&[chain(&["l", "j"]), chain(&["r", "j"])]);
    let t = v.symbol_table();
    assert_eq!(links(&t, 2), (Some(2), None, vec![0, 1]));
}

#[test]
fn an_undefined_relation_gets_a_stub() {
    let table = defined(&[("scan", "read")], false);
    let mut v = PipelineVisitor::new(table, ErrorListener::new());
    v.visit_pipeline(&chain(&["scan", "later"]), None);
    let t = v.symbol_table();
    assert_eq!(t.len(), 2);
    let stub = &t.symbols()[1];
    assert_eq!(stub.name(), "later");
    assert_eq!(stub.symbol_type(), SymbolType::Relation);
    match stub.subtype() {
        Some(SymbolSubtype::Relation(k)) => assert_eq!(*k, RelationType::Unknown),
        _ => panic!("a relation subtype"),
    }
    assert_eq!(links(&t, 1), (Some(1), Some(0), vec![]));
}

#[test]
fn a_relation_that_already_continues_is_left_alone() {
    let table = defined(&[("a", "read"), ("b", "read"), ("c", "filter")], false);
    let mut v = PipelineVisitor::new(table, ErrorListener::new());
    v.visit_pipelines(&[chain(&["a", "c"]), chain(&["b", "c"])]);
    let t = v.symbol_table();
    assert_eq!(links(&t, 2), (Some(2), Some(0), vec![]));
}

#[test]
fn a_pipeline_without_a_name_changes_nothing() {
    let table = defined(&[("a", "read")], false);
    let mut v = PipelineVisitor::new(table, ErrorListener::new());
    v.visit_pipeline(&PipelineNode { name: None, start: TextLocation::new(5, 1), nested: None }, None);
    assert_eq!(v.symbol_table().len(), 1);
    assert_eq!(links(&v.symbol_table(), 0), (None, None, vec![]));
}
