use std::any::TypeId;
use std::collections::hash_map::DefaultHasher;
use std::hash::{Hash, Hasher};

use substrait_textplan::textplan::common::location::{BoxedLocation, Location};
use substrait_textplan::textplan::common::proto_location::{PathComponent, ProtoLocation};
use substrait_textplan::textplan::common::unknown_location::UnknownLocation;

#[test]
fn test_path_component_display() {
    // Test Field display
    let field = PathComponent::Field("message".to_string());
    assert_eq!(field.to_string(), ".message");

    // Test IndexedField display
    let indexed_field = PathComponent::IndexedField("repeated_field".to_string(), 5);
    assert_eq!(indexed_field.to_string(), ".repeated_field[5]");
}

#[test]
fn test_proto_location_unknown() {
    let unknown = ProtoLocation::unknown();
    assert!(unknown.is_unknown());
    assert_eq!(unknown.root_instance_id(), 0);
    assert!(unknown.path().is_empty());
}

#[test]
fn test_proto_location_default() {
    let default = ProtoLocation::default();
    assert!(default.is_unknown());
    assert_eq!(default.to_string(), "unknown proto location");
}

#[allow(dead_code)]
#[derive(Debug)]
struct TestProto {
    field1: String,
    field2: i32,
}

#[allow(dead_code)]
#[derive(Debug)]
struct EmptyProto {}

#[allow(dead_code)]
#[derive(Debug)]
struct OtherProto {}

#[test]
fn test_proto_location_new() {
    let test_proto = TestProto {
        field1: "test".to_string(),
        field2: 42,
    };

    let location = ProtoLocation::new(&test_proto);
    assert!(!location.is_unknown());
    assert_eq!(location.root_type_id(), TypeId::of::<TestProto>());
    assert_eq!(
        format!("0x{:x}", location.root_instance_id()),
        format!("{:p}", &test_proto)
    );
    assert!(location.path().is_empty());
}

#[test]
fn test_proto_location_field_and_indexed_field() {
    let test_proto = TestProto {
        field1: "test".to_string(),
        field2: 0,
    };

    let base_location = ProtoLocation::new(&test_proto);

    // Test field method
    let field_location = base_location.field("field1");
    assert_eq!(field_location.path().len(), 1);
    assert_eq!(
        field_location.path()[0],
        PathComponent::Field("field1".to_string())
    );

    // Test indexed_field method
    let indexed_location = base_location.indexed_field("repeated_field", 3);
    assert_eq!(indexed_location.path().len(), 1);
    assert_eq!(
        indexed_location.path()[0],
        PathComponent::IndexedField("repeated_field".to_string(), 3)
    );

    // Test chaining methods
    let nested_location = base_location
        .field("nested_message")
        .indexed_field("repeated_field", 2)
        .field("nested_field");

    assert_eq!(nested_location.path().len(), 3);
    assert_eq!(
        nested_location.path_string(),
        ".nested_message.repeated_field[2].nested_field"
    );
}

#[test]
fn test_proto_location_path_string() {
    let test_proto = EmptyProto {};
    let location = ProtoLocation::new(&test_proto);

    // Empty path
    assert_eq!(location.path_string(), "");

    // Single field
    let location_with_field = location.field("test_field");
    assert_eq!(location_with_field.path_string(), ".test_field");

    // Multiple components
    let complex_location = location
        .field("message")
        .indexed_field("repeated", 3)
        .field("nested");

    assert_eq!(
        complex_location.path_string(),
        ".message.repeated[3].nested"
    );
}

#[test]
fn test_proto_location_display() {
    let test_proto = EmptyProto {};
    let location = ProtoLocation::new(&test_proto);

    // Base location (no path)
    let display_str = location.to_string();
    assert!(display_str.starts_with("proto type"));
    assert!(display_str.contains(&format!("{:p}", &test_proto)));

    // Location with path
    let location_with_path = location.field("test_field");
    let display_str = location_with_path.to_string();
    assert!(display_str.ends_with(".test_field"));

    // Unknown location
    let unknown = ProtoLocation::unknown();
    assert_eq!(unknown.to_string(), "unknown proto location");
}

#[allow(dead_code)]
#[derive(Debug)]
struct TestProto1 {
    tag: u8,
}

#[test]
fn test_proto_location_equality() {
    // Two live instances of one type (with a byte each, so that they sit at distinct
    // addresses) and one instance of another type.
    let test_proto1 = TestProto1 { tag: 1 };
    let same_proto1 = TestProto1 { tag: 1 };
    let test_proto2 = OtherProto {};

    let location1 = ProtoLocation::new(&test_proto1);
    let another_location1 = ProtoLocation::new(&same_proto1);
    let location2 = ProtoLocation::new(&test_proto2);

    // Locations from same type but different instances should be different
    assert_ne!(location1, another_location1);

    // Locations from different types should be different
    assert_ne!(location1, location2);

    // A cloned location is equal to the location it was cloned from
    let cloned_location = location1.clone();
    assert_eq!(location1, cloned_location);

    // Locations with different paths should be different
    let location_with_field = location1.field("test_field");
    assert_ne!(location1, location_with_field);
}

#[test]
fn test_location_trait_methods() {
    let test_proto = EmptyProto {};
    let location = ProtoLocation::new(&test_proto);

    // Test is_unknown
    assert!(!location.is_unknown());
    assert!(ProtoLocation::unknown().is_unknown());

    // Test location_hash
    let hash1 = location.location_hash();
    let hash2 = location.field("test").location_hash();
    assert_ne!(hash1, hash2);

    // Test equals with same type
    let cloned = location.clone();
    assert!(location.equals(&BoxedLocation::from(cloned)));
    assert!(!location.equals(&BoxedLocation::from(location.field("test"))));

    // Test equals with different location type
    let unknown_loc = UnknownLocation::UNKNOWN;
    assert!(!location.equals(&BoxedLocation::from(unknown_loc)));

    // Test box_clone
    let boxed = location.box_clone();
    assert!(location.equals(&boxed));
}

#[test]
fn test_hash_consistency() {
    let test_proto = EmptyProto {};
    let location = ProtoLocation::new(&test_proto);

    // Test that Hash impl is consistent with location_hash
    let mut hasher1 = DefaultHasher::new();
    location.hash(&mut hasher1);
    let std_hash = hasher1.finish();

    // Modifications affect both hashes consistently
    let location2 = location.field("test");

    let mut hasher2 = DefaultHasher::new();
    location2.hash(&mut hasher2);
    let std_hash2 = hasher2.finish();

    // Both hashing methods should recognize these as different locations
    assert_ne!(location.location_hash(), location2.location_hash());
    assert_ne!(std_hash, std_hash2);
}

#[allow(dead_code)]
#[derive(Debug)]
struct NestedProtoField {
    value: i32,
    name: String,
}

#[allow(dead_code)]
#[derive(Debug)]
struct NestedProto {
    id: i32,
    nested_field: NestedProtoField,
    repeated_fields: Vec<NestedProtoField>,
}

#[test]
fn test_nested_message_traversal() {
    let nested_field = NestedProtoField {
        value: 42,
        name: "inner".to_string(),
    };

    let repeated_fields = vec![
        NestedProtoField {
            value: 1,
            name: "first".to_string(),
        },
        NestedProtoField {
            value: 2,
            name: "second".to_string(),
        },
    ];

    let proto = NestedProto {
        id: 123,
        nested_field,
        repeated_fields,
    };

    // Starting location at the root message
    let root_location = ProtoLocation::new(&proto);

    // Test traversal to nested message
    let nested_location = root_location.field("nested_field");
    assert_eq!(nested_location.path_string(), ".nested_field");

    // Test traversal to field within nested message
    let value_location = nested_location.field("value");
    assert_eq!(value_location.path_string(), ".nested_field.value");

    // Test traversal to repeated field
    let repeated_location = root_location.field("repeated_fields");
    assert_eq!(repeated_location.path_string(), ".repeated_fields");

    // Test traversal to specific element in repeated field
    let first_element_location = repeated_location.indexed_field("element", 0);
    assert_eq!(
        first_element_location.path_string(),
        ".repeated_fields.element[0]"
    );

    // Test traversal to field within a repeated element
    let element_name_location = first_element_location.field("name");
    assert_eq!(
        element_name_location.path_string(),
        ".repeated_fields.element[0].name"
    );

    // Test alternative direct path construction
    let direct_path = root_location
        .field("repeated_fields")
        .indexed_field("element", 1)
        .field("value");
    assert_eq!(
        direct_path.path_string(),
        ".repeated_fields.element[1].value"
    );
}

#[allow(dead_code)]
#[derive(Debug)]
struct PlanMessage {
    relations: Vec<RelationMessage>,
    version: String,
}

#[allow(dead_code)]
#[derive(Debug)]
struct RelationMessage {
    name: String,
    expressions: Vec<ExpressionMessage>,
}

#[allow(dead_code)]
#[derive(Debug)]
struct ExpressionMessage {
    expr_type: String,
    value: String,
}

#[test]
fn test_visitor_pattern_usage() {
    let expr1 = ExpressionMessage {
        expr_type: "literal".to_string(),
        value: "42".to_string(),
    };

    let expr2 = ExpressionMessage {
        expr_type: "reference".to_string(),
        value: "column_a".to_string(),
    };

    let relation = RelationMessage {
        name: "test_relation".to_string(),
        expressions: vec![expr1, expr2],
    };

    let plan = PlanMessage {
        relations: vec![relation],
        version: "1.0".to_string(),
    };

    // Simulate visitor traversal with location tracking
    let plan_location = ProtoLocation::new(&plan);

    // Visit plan fields
    let version_location = plan_location.field("version");
    assert_eq!(version_location.path_string(), ".version");

    // Visit relations
    let relations_location = plan_location.field("relations");
    assert_eq!(relations_location.path_string(), ".relations");

    // Visit first relation
    let relation0_location = relations_location.indexed_field("rel", 0);
    assert_eq!(relation0_location.path_string(), ".relations.rel[0]");

    // Visit relation name
    let relation_name_location = relation0_location.field("name");
    assert_eq!(
        relation_name_location.path_string(),
        ".relations.rel[0].name"
    );

    // Visit expressions
    let expressions_location = relation0_location.field("expressions");
    assert_eq!(
        expressions_location.path_string(),
        ".relations.rel[0].expressions"
    );

    // Visit specific expression and its fields
    let expr0_location = expressions_location.indexed_field("expr", 0);
    let expr0_type_location = expr0_location.field("expr_type");
    let expr0_value_location = expr0_location.field("value");

    assert_eq!(
        expr0_location.path_string(),
        ".relations.rel[0].expressions.expr[0]"
    );
    assert_eq!(
        expr0_type_location.path_string(),
        ".relations.rel[0].expressions.expr[0].expr_type"
    );
    assert_eq!(
        expr0_value_location.path_string(),
        ".relations.rel[0].expressions.expr[0].value"
    );

    // Visit another expression directly
    let expr1_value_location = plan_location
        .field("relations")
        .indexed_field("rel", 0)
        .field("expressions")
        .indexed_field("expr", 1)
        .field("value");

    assert_eq!(
        expr1_value_location.path_string(),
        ".relations.rel[0].expressions.expr[1].value"
    );

    // Verify different paths have different hashes
    assert_ne!(
        expr0_value_location.location_hash(),
        expr1_value_location.location_hash()
    );
}

#[allow(dead_code)]
#[derive(Debug)]
struct TestMessage {
    id: i32,
}

#[test]
fn test_proto_location_macro() {
    let message = TestMessage { id: 100 };

    // A location made from the message itself
    let location = ProtoLocation::new(&message);

    // Verify the location
    assert!(!location.is_unknown());
    assert_eq!(location.root_type_id(), TypeId::of::<TestMessage>());
    assert_eq!(
        format!("0x{:x}", location.root_instance_id()),
        format!("{:p}", &message)
    );
    assert!(location.path().is_empty());

    // Test with chained methods
    let field_location = ProtoLocation::new(&message).field("id");
    assert_eq!(field_location.path_string(), ".id");
}
