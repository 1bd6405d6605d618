use substrait_textplan::build_tools::visitor_generator::{
    fix_pascal_case, get_method_name_fragment, get_rust_type_path, is_rel_field,
    to_pascal_case, to_rust_safe_name, to_snake_case, FieldDescriptor, FieldLabel,
    FileDescriptor, FileDescriptorSet, GeneratorError, MessageDescriptor, VisitorGenerator,
    FILE_HEADER,
};

fn field(name: &str, field_type: Option<&str>, label: FieldLabel, oneof: Option<i32>) -> FieldDescriptor {
    FieldDescriptor {
        name: name.to_string(),
        field_type: field_type.map(|t| t.to_string()),
        label,
        oneof_index: oneof,
    }
}

fn message(
    name: &str,
    fields: Vec<FieldDescriptor>,
    nested: Vec<MessageDescriptor>,
    oneofs: &[&str],
) -> MessageDescriptor {
    MessageDescriptor {
        name: name.to_string(),
        field: fields,
        nested_type: nested,
        oneof_decl: oneofs.iter().map(|o| o.to_string()).collect(),
    }
}

fn sample_descriptors() -> FileDescriptorSet {
    let plan = message(
        "Plan",
        vec![field("relations", Some(".substrait.Rel"), FieldLabel::Repeated, None)],
        vec![],
        &[],
    );
    let rel = message(
        "Rel",
        vec![
            field("read", Some(".substrait.ReadRel"), FieldLabel::Optional, Some(0)),
            field("filter", Some(".substrait.FilterRel"), FieldLabel::Optional, Some(0)),
        ],
        vec![],
        &["rel_type"],
    );
    let named = message("Named", vec![], vec![], &[]);
    let read = message("ReadRel", vec![], vec![named], &[]);
    let filter = message(
        "FilterRel",
        vec![
            field("input", Some(".substrait.Rel"), FieldLabel::Optional, None),
            field("condition", Some(".substrait.Expression"), FieldLabel::Optional, None),
            field("type", Some(".substrait.ReadRel"), FieldLabel::Required, None),
        ],
        vec![],
        &[],
    );
    let google = FileDescriptor {
        package: "google.protobuf".to_string(),
        message_type: vec![message("Any", vec![], vec![], &[])],
    };
    FileDescriptorSet {
        file: vec![
            google,
            FileDescriptor {
                package: "substrait".to_string(),
                message_type: vec![plan, rel, read, filter],
            },
        ],
    }
}

#[test]
fn camel_case_becomes_snake_case() {
    assert_eq!(to_snake_case("ReadRel"), "read_rel");
    assert_eq!(to_snake_case("SimpleExtensionURI"), "simple_extension_uri");
    assert_eq!(to_snake_case("already_snake"), "already_snake");
    assert_eq!(to_snake_case("a::B"), "a::b");
    assert_eq!(to_snake_case(""), "");
}

#[test]
fn acronyms_are_fixed_in_pascal_case() {
    assert_eq!(fix_pascal_case("SimpleExtensionURI"), "SimpleExtensionUri");
    assert_eq!(fix_pascal_case("URIs"), "Uris");
    assert_eq!(fix_pascal_case("Plan"), "Plan");
}

#[test]
fn underscores_become_pascal_case() {
    assert_eq!(to_pascal_case("hello_world"), "HelloWorld");
    assert_eq!(to_pascal_case("_x__y"), "XY");
    assert_eq!(to_pascal_case("alreadyPascal"), "AlreadyPascal");
}

#[test]
fn keywords_become_raw_identifiers() {
    assert_eq!(to_rust_safe_name("type"), "r#type");
    assert_eq!(to_rust_safe_name("match"), "r#match");
    assert_eq!(to_rust_safe_name("relation"), "relation");
}

#[test]
fn relation_fields_are_recognised() {
    let rel = |t: Option<&str>| is_rel_field(&field("x", t, FieldLabel::Optional, None));
    assert!(rel(Some(".substrait.Rel")));
    assert!(rel(Some("substrait.Rel")));
    assert!(!rel(Some(".substrait.RelRoot")));
    assert!(!rel(None));
}

#[test]
fn method_names_use_overrides_or_snake_case() {
    assert_eq!(
        get_method_name_fragment(".substrait.Expression.Literal.Decimal"),
        "expression_literal_decimal"
    );
    assert_eq!(
        get_method_name_fragment("substrait.Expression.Nested.Map"),
        "expression_nested_map"
    );
    assert_eq!(get_method_name_fragment("substrait.ReadRel"), "read_rel");
    assert_eq!(get_method_name_fragment("Plan"), "plan");
}

#[test]
fn rust_type_paths_follow_the_packages() {
    assert_eq!(get_rust_type_path("substrait.Plan"), "proto::Plan");
    assert_eq!(get_rust_type_path("substrait.Expression.Literal"), "proto::expression::Literal");
    assert_eq!(
        get_rust_type_path("substrait.extensions.SimpleExtensionURI"),
        "extensions::SimpleExtensionUri"
    );
    assert_eq!(
        get_rust_type_path("substrait.Type.Struct.Enum"),
        "proto::r#type::r#struct::Enum"
    );
}

#[test]
fn generator_errors_name_the_io_error() {
    let e = GeneratorError::from(std::io::Error::new(std::io::ErrorKind::NotFound, "no such file"));
    assert_eq!(e.to_string(), "I/O error: no such file");
}

#[test]
fn generator_writes_methods_for_every_indexed_message() {
    let mut generator = VisitorGenerator::new(sample_descriptors(), "visitor.rs".to_string());
    let code = match generator.run() {
        Ok(code) => code,
        Err(e) => panic!("{}", e.to_string()),
    };
    assert!(code.starts_with(FILE_HEADER));
    assert!(code.contains("pub trait PlanProtoVisitor {"));
    assert!(code.contains("fn pre_process_plan(&mut self, obj: &proto::Plan) {}"));
    assert!(code.contains("fn post_process_filter_rel(&mut self, obj: &proto::FilterRel) {}"));
    assert!(code.contains("fn pre_process_named(&mut self, obj: &proto::read_rel::Named) {}"));
    assert!(!code.contains("pre_process_any"));
    assert!(code.contains("impl Traversable for proto::Plan {"));
}

#[test]
fn top_level_messages_come_first_and_the_others_last_name_first() {
    let mut generator = VisitorGenerator::new(sample_descriptors(), "visitor.rs".to_string());
    let code = generator.run().ok().unwrap();
    let at = |s: &str| code.find(s).unwrap();
    assert!(at("fn pre_process_plan(") < at("fn pre_process_rel("));
    assert!(at("fn pre_process_rel(") < at("fn pre_process_named("));
    assert!(at("fn pre_process_named(") < at("fn pre_process_read_rel("));
    assert!(at("fn pre_process_read_rel(") < at("fn pre_process_filter_rel("));
    assert!(at("fn pre_process_filter_rel(") < at("fn post_process_plan("));
    assert!(at("impl Traversable for proto::Plan {") < at("impl Traversable for proto::Rel {"));
    assert!(at("impl Traversable for proto::Rel {") < at("impl Traversable for proto::FilterRel {"));
}

#[test]
fn walking_methods_visit_fields_and_oneofs() {
    let mut generator = VisitorGenerator::new(sample_descriptors(), "visitor.rs".to_string());
    let code = generator.run().ok().unwrap();
    let plan = &code[code.find("impl Traversable for proto::Plan {").unwrap()..];
    let plan = &plan[..plan.find("\n}\n").unwrap()];
    assert!(plan.contains("visitor.set_location(ProtoLocation::new(self));"));
    assert!(plan.contains("    // Process repeated field: relations\n"));
    assert!(plan.contains("let field_loc = visitor.indexed_field_location(\"relations\", idx);"));
    let rel = &code[code.find("impl Traversable for proto::Rel {").unwrap()..];
    let rel = &rel[..rel.find("\n}\n").unwrap()];
    assert!(!rel.contains("ProtoLocation::new(self)"));
    assert!(rel.contains("        if let Some(rel_type) = &self.rel_type {\n"));
    assert!(rel.contains("                proto::rel::RelType::Read(value) => {\n"));
    assert!(rel.contains("                proto::rel::RelType::Filter(value) => {\n"));
    assert!(rel.contains("                _ => {}\n"));
    let filter = &code[code.find("impl Traversable for proto::FilterRel {").unwrap()..];
    let filter = &filter[..filter.find("\n}\n").unwrap()];
    assert!(!filter.contains("condition"));
    assert!(filter.contains("    // Process field: r#type\n"));
    assert!(filter.find("r#type").unwrap() < filter.find("Process optional field: input").unwrap());
    assert!(filter.contains("        visitor.post_process_filter_rel(self);\n"));
}

#[test]
fn a_message_without_a_package_cannot_be_walked() {
    let set = FileDescriptorSet {
        file: vec![FileDescriptor {
            package: String::new(),
            message_type: vec![message("Loose", vec![], vec![], &[])],
        }],
    };
    let mut generator = VisitorGenerator::new(set, "visitor.rs".to_string());
    assert!(matches!(generator.run(), Err(GeneratorError::Unwalkable)));
}

#[test]
fn a_oneof_field_outside_the_declared_oneofs_cannot_be_walked() {
    let odd = message(
        "Odd",
        vec![field("x", Some(".substrait.Odd"), FieldLabel::Optional, Some(3))],
        vec![],
        &[],
    );
    let set = FileDescriptorSet {
        file: vec![FileDescriptor { package: "substrait".to_string(), message_type: vec![odd] }],
    };
    let mut generator = VisitorGenerator::new(set, "visitor.rs".to_string());
    assert!(matches!(generator.run(), Err(GeneratorError::Unwalkable)));
}

#[test]
fn generator_errors_show_template_failures() {
    assert_eq!(GeneratorError::Template("bad".to_string()).to_string(), "bad");
    assert_eq!(GeneratorError::Unwalkable.to_string(), "descriptors cannot be walked");
}
