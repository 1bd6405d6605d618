use substrait_textplan::textplan::common::parse_result::ParseResult;
use substrait_textplan::textplan::symbol_table::SymbolTable;

#[test]
fn a_result_without_errors_is_successful() {
    let result = ParseResult::new(SymbolTable::new(), Vec::new(), Vec::new());
    assert!(result.successful());
    assert!(result.all_errors().is_empty());
    assert_eq!(result.to_string(), "Successful parse");
    assert_eq!(result.symbol_table().len(), 0);
}

#[test]
fn all_errors_lists_syntax_then_semantic_errors() {
    let result = ParseResult::new(
        SymbolTable::new(),
        vec!["bad token".to_string()],
        vec!["unknown relation".to_string()],
    );
    assert!(!result.successful());
    assert_eq!(result.syntax_errors(), &["bad token".to_string()]);
    assert_eq!(result.semantic_errors(), &["unknown relation".to_string()]);
    assert_eq!(
        result.all_errors(),
        vec!["bad token".to_string(), "unknown relation".to_string()]
    );
    assert_eq!(
        result.to_string(),
        "Parse failed with 2 errors:\n  bad token\n  unknown relation\n"
    );
}

#[test]
fn added_errors_are_syntax_errors() {
    let mut result = ParseResult::new(SymbolTable::new(), Vec::new(), vec!["late".to_string()]);
    result.add_errors(&["one".to_string(), "two".to_string()]);
    assert_eq!(result.syntax_errors().len(), 2);
    assert_eq!(
        result.all_errors(),
        vec!["one".to_string(), "two".to_string(), "late".to_string()]
    );
    assert!(!result.successful());
}
