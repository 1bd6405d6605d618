use substrait_textplan::textplan::common::error::TextPlanError;
use substrait_textplan::textplan::common::location::{BoxedLocation, Location};
use substrait_textplan::textplan::common::text_location::TextLocation;
use substrait_textplan::textplan::common::unknown_location::UnknownLocation;
use substrait_textplan::textplan::common::structured_symbol_data::FunctionData;

#[test]
fn text_locations_print_and_compare() {
    let l = TextLocation::new(3, 4);
    assert_eq!(l.to_string(), "pos 3 len 4");
    assert_eq!(TextLocation::unknown().to_string(), "unknown");
    assert!(TextLocation::default().is_unknown());
    assert!(!l.is_unknown());
    assert!(l.equals(&BoxedLocation::from(TextLocation::new(3, 4))));
    assert!(!l.equals(&BoxedLocation::from(TextLocation::new(3, 5))));
    assert!(l.equals(&l.box_clone()));
    assert_eq!(l.location_hash(), TextLocation::new(3, 4).location_hash());
}

#[test]
fn the_unknown_location_is_unknown() {
    let u = UnknownLocation::UNKNOWN;
    assert!(u.is_unknown());
    assert_eq!(u.location_hash(), UnknownLocation::unique_hash());
    assert!(u.equals(&UnknownLocation::boxed()));
    assert!(!u.equals(&BoxedLocation::from(TextLocation::new(0, 0))));
}

#[test]
fn errors_name_their_kind() {
    assert_eq!(TextPlanError::ParseError("x".to_string()).to_string(), "Parse error: x");
    assert_eq!(
        TextPlanError::ProtobufError("bad".to_string()).to_string(),
        "Protobuf error: bad"
    );
    assert_eq!(
        TextPlanError::InvalidExpression("e".to_string()).to_string(),
        "Invalid expression: e"
    );
    let io = TextPlanError::IoError(std::io::Error::new(std::io::ErrorKind::Other, "disk"));
    assert_eq!(io.to_string(), "IO error: disk");
}

#[test]
fn function_data_keeps_its_fields() {
    let f = FunctionData { name: "sum".to_string(), extension_uri_reference: None, anchor: 2 };
    assert_eq!(f.duplicate().name, "sum");
    assert_eq!(f.duplicate().anchor, 2);
}
