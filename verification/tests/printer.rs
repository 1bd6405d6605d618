use substrait_textplan::proto::{
    AggregateFunction, ArgType, BasicKind, Cast, Expression, FunctionArgument, FunctionOption,
    IfClause, IfThen, Kind, Literal, LiteralType, RexType, ScalarFunction, Type,
    NULLABILITY_NULLABLE, NULLABILITY_REQUIRED,
};
use substrait_textplan::textplan::common::error::TextPlanError;
use substrait_textplan::textplan::common::structured_symbol_data::FunctionData;
use substrait_textplan::textplan::common::unknown_location::UnknownLocation;
use substrait_textplan::textplan::printer::expression_printer::{print_type_text, ExpressionPrinter};
use substrait_textplan::textplan::printer::literal_printer::print_literal;
use substrait_textplan::textplan::parser::visitors::type_visitor::parse_type_text;
use substrait_textplan::textplan::symbol_table::{SymbolBlob, SymbolTable, SymbolType};

fn lit(t: LiteralType) -> Literal {
    Literal { literal_type: Some(t), nullable: false }
}

fn text_of(t: LiteralType) -> String {
    print_literal(&lit(t)).expect("a literal with a value prints")
}

fn i32_expr(v: i32) -> Expression {
    Expression { rex_type: Some(RexType::Literal(lit(LiteralType::I32(v)))) }
}

fn basic(kind: BasicKind, nullability: i32) -> Type {
    Type { kind: Some(Kind::Basic { kind, nullability }) }
}

#[test]
fn literals_print_in_textplan_spelling() {
    assert_eq!(text_of(LiteralType::Boolean(true)), "true");
    assert_eq!(text_of(LiteralType::I8(-3)), "-3_i8");
    assert_eq!(text_of(LiteralType::I32(42)), "42_i32");
    assert_eq!(text_of(LiteralType::I64(-9000000000)), "-9000000000_i64");
    assert_eq!(text_of(LiteralType::Fp64("1.5".to_string())), "1.5_fp64");
    assert_eq!(text_of(LiteralType::String("hi".to_string())), "\"\"hi\"\"");
    assert_eq!(text_of(LiteralType::Date(19000)), "19000_date");
    assert_eq!(
        text_of(LiteralType::IntervalYearToMonth { years: 1, months: 2 }),
        "{1, 2}_interval_year_month"
    );
    assert_eq!(
        text_of(LiteralType::IntervalYearToMonth { years: 3, months: 0 }),
        "3_interval_year"
    );
    assert_eq!(
        text_of(LiteralType::IntervalDayToSecond {
            days: 1,
            seconds: 2,
            subseconds: 500,
            microseconds: None
        }),
        "{1, 2, 500}_interval_day_second"
    );
    assert_eq!(
        text_of(LiteralType::IntervalDayToSecond {
            days: 1,
            seconds: 2,
            subseconds: 500,
            microseconds: Some(7)
        }),
        "{1, 2, 7}_interval_day_second"
    );
    assert_eq!(
        text_of(LiteralType::VarChar { value: String::new(), length: 5 }),
        "\"\"_varchar<5>"
    );
    assert_eq!(text_of(LiteralType::VarChar { value: String::new(), length: 0 }), "\"\"_varchar");
    assert_eq!(
        text_of(LiteralType::FixedBinary(vec![0xab, 0x01])),
        "0xab01_fixedbinary"
    );
    assert_eq!(text_of(LiteralType::Null), "NULL");
    assert_eq!(text_of(LiteralType::Uuid), "UUID_LITERAL_NOT_YET_IMPLEMENTED");
}

#[test]
fn decimals_read_their_bytes_as_a_signed_number() {
    assert_eq!(
        text_of(LiteralType::Decimal { value: vec![0x39, 0x30], precision: 10, scale: 2 }),
        "12345_decimal<10,2>"
    );
    assert_eq!(
        text_of(LiteralType::Decimal { value: vec![0xff; 16], precision: 38, scale: 0 }),
        "-1_decimal<38,0>"
    );
    let mut min = vec![0u8; 15];
    min.push(0x80);
    assert_eq!(
        text_of(LiteralType::Decimal { value: min, precision: 38, scale: 0 }),
        "-170141183460469231731687303715884105728_decimal<38,0>"
    );
}

#[test]
fn nullable_literals_are_marked() {
    let l = Literal { literal_type: Some(LiteralType::I16(7)), nullable: true };
    assert_eq!(print_literal(&l).unwrap(), "7_i16?");
    let missing = Literal { literal_type: None, nullable: false };
    match print_literal(&missing) {
        Err(TextPlanError::InvalidExpression(m)) => assert_eq!(m, "Literal has no literal_type"),
        _ => panic!("a literal without a value is an error"),
    }
}

fn table_with_add() -> SymbolTable {
    let mut table = SymbolTable::new();
    table.define_symbol(
        "add".to_string(),
        UnknownLocation::boxed(),
        SymbolType::Function,
        None,
        Some(SymbolBlob::Function(FunctionData {
            name: "add:i32_i32".to_string(),
            extension_uri_reference: Some(1),
            anchor: 7,
        })),
    );
    table
}

#[test]
fn function_calls_print_with_their_names() {
    let table = table_with_add();
    let mut printer = ExpressionPrinter::new(&table, None);
    let call = Expression {
        rex_type: Some(RexType::ScalarFunction(ScalarFunction {
            function_reference: 7,
            arguments: vec![
                FunctionArgument { arg_type: Some(ArgType::Value(i32_expr(1))) },
                FunctionArgument { arg_type: Some(ArgType::Enum("FIRST".to_string())) },
                FunctionArgument { arg_type: None },
            ],
            args: vec![i32_expr(2)],
            output_type: Some(basic(BasicKind::I32, NULLABILITY_REQUIRED)),
        })),
    };
    assert_eq!(
        printer.print_expression(&call).unwrap(),
        "add(1_i32, FIRST_enum, MISSING_ARGUMENT, 2_i32)->i32"
    );
    let unknown = Expression {
        rex_type: Some(RexType::ScalarFunction(ScalarFunction {
            function_reference: 9,
            arguments: vec![],
            args: vec![],
            output_type: None,
        })),
    };
    assert_eq!(printer.print_expression(&unknown).unwrap(), "functionref#9()");
}

#[test]
fn casts_and_conditionals_print() {
    let table = SymbolTable::new();
    let mut printer = ExpressionPrinter::new(&table, None);
    let cast = Expression {
        rex_type: Some(RexType::Cast(Box::new(Cast {
            input: Some(Box::new(i32_expr(1))),
            target: Some(basic(BasicKind::I64, NULLABILITY_NULLABLE)),
        }))),
    };
    assert_eq!(printer.print_expression(&cast).unwrap(), "1_i32 AS i64?");
    let empty_cast = Expression {
        rex_type: Some(RexType::Cast(Box::new(Cast { input: None, target: None }))),
    };
    assert_eq!(
        printer.print_expression(&empty_cast).unwrap(),
        "MISSING_CAST_INPUT AS MISSING_CAST_TYPE"
    );
    let if_then = Expression {
        rex_type: Some(RexType::IfThen(IfThen {
            ifs: vec![IfClause {
                condition: Some(Box::new(Expression {
                    rex_type: Some(RexType::Literal(lit(LiteralType::Boolean(true)))),
                })),
                result: Some(Box::new(i32_expr(1))),
            }],
            otherwise: Some(Box::new(i32_expr(2))),
        })),
    };
    assert_eq!(printer.print_expression(&if_then).unwrap(), "IFTHEN(true, 1_i32, 2_i32)");
    let bare = Expression { rex_type: Some(RexType::IfThen(IfThen { ifs: vec![], otherwise: None })) };
    assert_eq!(printer.print_expression(&bare).unwrap(), "IFTHEN()");
    assert_eq!(
        printer
            .print_expression(&Expression { rex_type: Some(RexType::Nested) })
            .unwrap(),
        "NESTED_NOT_YET_IMPLEMENTED"
    );
}

#[test]
fn errors_inside_expressions_come_out() {
    let table = SymbolTable::new();
    let mut printer = ExpressionPrinter::new(&table, None);
    match printer.print_expression(&Expression { rex_type: None }) {
        Err(TextPlanError::InvalidExpression(m)) => assert_eq!(m, "Expression has no rex_type"),
        _ => panic!("an expression without a kind is an error"),
    }
    let bad_cast = Expression {
        rex_type: Some(RexType::Cast(Box::new(Cast {
            input: Some(Box::new(i32_expr(1))),
            target: Some(Type { kind: None }),
        }))),
    };
    match printer.print_expression(&bad_cast) {
        Err(TextPlanError::InvalidExpression(m)) => assert_eq!(m, "Type has no kind"),
        _ => panic!("a type without a kind is an error"),
    }
}

#[test]
fn aggregate_functions_print_options_and_phase() {
    let table = table_with_add();
    let mut printer = ExpressionPrinter::new(&table, None);
    let f = AggregateFunction {
        function_reference: 7,
        arguments: vec![FunctionArgument { arg_type: Some(ArgType::Value(i32_expr(1))) }],
        args: vec![],
        options: vec![FunctionOption {
            name: "overflow".to_string(),
            preference: vec!["SILENT".to_string(), "ERROR".to_string()],
        }],
        output_type: Some(basic(BasicKind::I64, NULLABILITY_REQUIRED)),
        phase: 3,
    };
    assert_eq!(
        printer.print_aggregate_function(&f).unwrap(),
        "add(1_i32)#overflow;SILENT;ERROR->i64@AGGREGATION_PHASE_INITIAL_TO_RESULT"
    );
    let g = AggregateFunction {
        function_reference: 1,
        arguments: vec![],
        args: vec![],
        options: vec![],
        output_type: None,
        phase: 9,
    };
    assert_eq!(printer.print_aggregate_function(&g).unwrap(), "functionref#1()@UNKNOWN_PHASE");
}

#[test]
fn printed_types_read_back() {
    for text in ["i32?", "string", "decimal<10,2>", "varchar?<40>", "fixedbinary<16>", "timestamp_tz"] {
        let (t, errors) = parse_type_text(text);
        assert!(errors.is_empty());
        let printed = print_type_text(&t).unwrap();
        assert_eq!(printed, text);
        let (again, errors) = parse_type_text(&printed);
        assert!(errors.is_empty());
        assert_eq!(print_type_text(&again).unwrap(), text);
    }
    let table = SymbolTable::new();
    let printer = ExpressionPrinter::new(&table, None);
    assert_eq!(printer.print_type(&basic(BasicKind::Bool, NULLABILITY_NULLABLE)).unwrap(), "bool?");
}
