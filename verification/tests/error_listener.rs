use substrait_textplan::textplan::common::text_location::TextLocation;
use substrait_textplan::textplan::parser::error_listener::{
    create_boxed_error_listener, AntlrErrorListener, ErrorListener, ParseError,
};

#[test]
fn parse_errors_print_their_location() {
    let e = ParseError::new("unexpected '}'".to_string(), TextLocation::new(12, 1));
    assert_eq!(e.message(), "unexpected '}'");
    assert_eq!(e.location(), TextLocation::new(12, 1));
    assert_eq!(e.to_string(), "unexpected '}' at pos 12 len 1");
    let unknown = ParseError::new("lost".to_string(), TextLocation::unknown());
    assert_eq!(unknown.to_string(), "lost at unknown");
}

#[test]
fn a_listener_collects_errors_in_order() {
    let mut listener = ErrorListener::new();
    assert!(!listener.has_errors());
    assert!(listener.format_errors().is_empty());
    listener.add_error("first".to_string(), TextLocation::new(0, 3));
    listener.add_error("second".to_string(), TextLocation::new(-4, 0));
    assert!(listener.has_errors());
    assert_eq!(
        listener.format_errors(),
        vec!["first at pos 0 len 3".to_string(), "second at unknown".to_string()]
    );
    assert!(!ErrorListener::default().has_errors());
}

#[test]
fn parser_reports_become_errors() {
    let mut antlr = AntlrErrorListener::new(ErrorListener::new());
    antlr.syntax_error(3, 7, "missing ';'");
    antlr.report_context_sensitivity(10, 20, -1);
    assert_eq!(
        antlr.get_error_listener().format_errors(),
        vec![
            "missing ';' at pos 3 len 7".to_string(),
            "Context sensitivity detected at indices 10-20 with prediction -1 at pos 10 len 20"
                .to_string(),
        ]
    );
    let boxed = create_boxed_error_listener(ErrorListener::new());
    assert!(!boxed.get_error_listener().has_errors());
}
