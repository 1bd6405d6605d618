use substrait_textplan::proto::{Expression, LiteralType, RexType};
use substrait_textplan::textplan::parser::error_listener::ErrorListener;
use substrait_textplan::textplan::parser::visitors::relation_visitor::{
    BasicTypeSuffix, ConstantNode, RelationVisitor,
};
use substrait_textplan::textplan::common::structured_symbol_data::FunctionData;
use substrait_textplan::textplan::common::unknown_location::UnknownLocation;
use substrait_textplan::textplan::symbol_table::{SymbolBlob, SymbolTable, SymbolType};

fn literal(e: Expression) -> LiteralType {
    match e.rex_type {
        Some(RexType::Literal(l)) => {
            assert!(!l.nullable);
            l.literal_type.unwrap()
        }
        _ => panic!("not a literal"),
    }
}

fn build(c: ConstantNode) -> LiteralType {
    let visitor = RelationVisitor::new(SymbolTable::new(), ErrorListener::new());
    literal(visitor.build_constant(&c))
}

fn number(text: &str, suffix: Option<(&str, Option<Vec<&str>>)>) -> ConstantNode {
    ConstantNode::Number {
        text: text.to_string(),
        suffix: suffix.map(|(id, spec)| BasicTypeSuffix {
            id: Some(id.to_string()),
            specifier: spec.map(|v| v.iter().map(|s| s.to_string()).collect()),
        }),
        fp32_text: text.parse::<f32>().ok().map(|v| v.to_string()),
        fp64_text: text.parse::<f64>().ok().map(|v| v.to_string()),
    }
}

fn text(t: &str, id: Option<&str>) -> ConstantNode {
    ConstantNode::Text {
        text: t.to_string(),
        suffix: id.map(|i| BasicTypeSuffix { id: Some(i.to_string()), specifier: None }),
    }
}

#[test]
fn plain_numbers_are_32_bit_where_they_fit() {
    assert!(matches!(build(number("42", None)), LiteralType::I32(42)));
    assert!(matches!(build(number("-7", None)), LiteralType::I32(-7)));
    assert!(matches!(build(number("3000000000", None)), LiteralType::I64(3000000000)));
    assert!(matches!(build(number("99999999999999999999", None)), LiteralType::I64(0)));
}

#[test]
fn numbers_follow_their_type_suffix() {
    assert!(matches!(build(number("18000", Some(("date", None)))), LiteralType::Date(18000)));
    assert!(matches!(build(number("5", Some(("TIME", None)))), LiteralType::Time(5)));
    assert!(matches!(build(number("7", Some(("i8", None)))), LiteralType::I8(7)));
    assert!(matches!(build(number("7", Some(("i16", None)))), LiteralType::I16(7)));
    assert!(matches!(build(number("7", Some(("i32", None)))), LiteralType::I32(7)));
    assert!(matches!(build(number("7", Some(("i64", None)))), LiteralType::I64(7)));
    assert!(matches!(build(number("x", Some(("i32", None)))), LiteralType::I32(0)));
    assert!(matches!(build(number("9", Some(("other", None)))), LiteralType::I64(9)));
    assert!(matches!(
        build(number("3", Some(("interval_year", None)))),
        LiteralType::IntervalYearToMonth { years: 3, months: 0 }
    ));
}

#[test]
fn months_split_into_years_toward_zero() {
    assert!(matches!(
        build(number("14", Some(("interval_year_month", None)))),
        LiteralType::IntervalYearToMonth { years: 1, months: 2 }
    ));
    assert!(matches!(
        build(number("-14", Some(("interval_year_month", None)))),
        LiteralType::IntervalYearToMonth { years: -1, months: -2 }
    ));
}

#[test]
fn decimals_hold_their_little_endian_bytes() {
    match build(number("258", Some(("decimal", Some(vec!["10", "2"]))))) {
        LiteralType::Decimal { value, precision, scale } => {
            let mut expected = vec![0u8; 16];
            expected[0] = 2;
            expected[1] = 1;
            assert_eq!(value, expected);
            assert_eq!((precision, scale), (10, 2));
        }
        _ => panic!("not a decimal"),
    }
    match build(number("-1", Some(("decimal", None)))) {
        LiteralType::Decimal { value, precision, scale } => {
            assert_eq!(value, vec![0xffu8; 16]);
            assert_eq!((precision, scale), (38, 0));
        }
        _ => panic!("not a decimal"),
    }
    match build(number("5", Some(("decimal", Some(vec!["7", "x"]))))) {
        LiteralType::Decimal { precision, scale, .. } => assert_eq!((precision, scale), (7, 0)),
        _ => panic!("not a decimal"),
    }
    match build(number("1.5", Some(("decimal", Some(vec!["4", "1"]))))) {
        LiteralType::Decimal { value, precision, scale } => {
            assert_eq!(value, vec![0u8; 16]);
            assert_eq!((precision, scale), (38, 0));
        }
        _ => panic!("not a decimal"),
    }
}

#[test]
fn floating_point_numbers_keep_their_value_text() {
    match build(number("1.5", Some(("fp32", None)))) {
        LiteralType::Fp32(t) => assert_eq!(t, "1.5"),
        _ => panic!("not an fp32"),
    }
    match build(number("2.25", Some(("fp64", None)))) {
        LiteralType::Fp64(t) => assert_eq!(t, "2.25"),
        _ => panic!("not an fp64"),
    }
    let unread = ConstantNode::Number {
        text: "z".to_string(),
        suffix: Some(BasicTypeSuffix { id: Some("fp64".to_string()), specifier: None }),
        fp32_text: None,
        fp64_text: None,
    };
    match build(unread) {
        LiteralType::Fp64(t) => assert_eq!(t, "0"),
        _ => panic!("not an fp64"),
    }
}

#[test]
fn strings_lose_their_quotes() {
    match build(text("\"hello\"", None)) {
        LiteralType::String(s) => assert_eq!(s, "hello"),
        _ => panic!("not a string"),
    }
    match build(text("bare", None)) {
        LiteralType::String(s) => assert_eq!(s, "bare"),
        _ => panic!("not a string"),
    }
    match build(text("\"abc\"", Some("VarChar"))) {
        LiteralType::VarChar { value, length } => {
            assert_eq!(value, "abc");
            assert_eq!(length, 0);
        }
        _ => panic!("not a varchar"),
    }
    match build(text("\"abc\"", Some("fixedchar"))) {
        LiteralType::FixedChar(s) => assert_eq!(s, "abc"),
        _ => panic!("not a fixedchar"),
    }
    match build(text("\"\"", Some("other"))) {
        LiteralType::String(s) => assert_eq!(s, ""),
        _ => panic!("not a string"),
    }
}

#[test]
fn booleans_and_null() {
    assert!(matches!(build(ConstantNode::True), LiteralType::Boolean(true)));
    assert!(matches!(build(ConstantNode::False), LiteralType::Boolean(false)));
    assert!(matches!(build(ConstantNode::Null), LiteralType::Null));
    assert!(matches!(build(ConstantNode::Other), LiteralType::I64(0)));
}

#[test]
fn structs_of_numbers_make_intervals() {
    let parts = |ns: &[&str]| ns.iter().map(|n| number(n, None)).collect::<Vec<_>>();
    let day_second = ConstantNode::Struct {
        complex_type: Some("INTERVAL_DAY_SECOND".to_string()),
        constants: parts(&["1", "2", "3"]),
    };
    assert!(matches!(
        build(day_second),
        LiteralType::IntervalDayToSecond { days: 1, seconds: 2, subseconds: 0, microseconds: Some(3) }
    ));
    let short = ConstantNode::Struct {
        complex_type: Some("interval_day_second".to_string()),
        constants: parts(&["1", "2"]),
    };
    assert!(matches!(
        build(short),
        LiteralType::IntervalDayToSecond { days: 0, seconds: 0, subseconds: 0, microseconds: Some(0) }
    ));
    let year_month = ConstantNode::Struct {
        complex_type: Some("interval_year_month".to_string()),
        constants: vec![number("4", None), text("\"x\"", None)],
    };
    assert!(matches!(
        build(year_month),
        LiteralType::IntervalYearToMonth { years: 4, months: 0 }
    ));
    let untyped = ConstantNode::Struct { complex_type: None, constants: parts(&["1"]) };
    assert!(matches!(build(untyped), LiteralType::I64(0)));
    let unknown = ConstantNode::Struct { complex_type: Some("point".to_string()), constants: vec![] };
    assert!(matches!(build(unknown), LiteralType::I64(0)));
}

#[test]
fn function_references_come_from_function_symbols() {
    let mut table = SymbolTable::new();
    table.define_symbol(
        "add".to_string(),
        UnknownLocation::boxed(),
        SymbolType::Schema,
        None,
        None,
    );
    table.define_symbol(
        "sum".to_string(),
        UnknownLocation::boxed(),
        SymbolType::Function,
        None,
        Some(SymbolBlob::Function(FunctionData {
            name: "sum:i32".to_string(),
            extension_uri_reference: Some(1),
            anchor: 4,
        })),
    );
    table.define_symbol(
        "add".to_string(),
        UnknownLocation::boxed(),
        SymbolType::Function,
        None,
        Some(SymbolBlob::Function(FunctionData {
            name: "add:i32_i32".to_string(),
            extension_uri_reference: Some(1),
            anchor: 9,
        })),
    );
    let visitor = RelationVisitor::new(table, ErrorListener::new());
    assert_eq!(visitor.lookup_function_reference("add"), 9);
    assert_eq!(visitor.lookup_function_reference("sum"), 4);
    assert_eq!(visitor.lookup_function_reference("missing"), 0);
}
